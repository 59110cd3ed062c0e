//! A verified parser for the iCalendar text format: folded content lines are
//! unfolded into logical lines, each logical line is tokenized into a property
//! name, parameters and an escape-resolved value, and the flat sequence of
//! content lines is assembled into a tree of nested `BEGIN:`/`END:` components.

pub mod cursor;
pub mod error;
pub mod text;
pub mod unfold;
pub mod content_line;
pub mod component;
pub mod parser;

pub use error::CalendarError;
pub use error::ParserError;
pub use parser::from_string;

use vstd::prelude::*;

verus! {

use crate::component::Component;
use crate::component::ComponentV;
use crate::component::comp_view;

/// The parsed document: the single top-level component, whose name is
/// `VCALENDAR`.
#[derive(Debug)]
pub struct Calendar {
    pub root: Component,
}

impl View for Calendar {
    type V = ComponentV;

    open spec fn view(&self) -> ComponentV {
        comp_view(self.root)
    }
}

} // verus!
