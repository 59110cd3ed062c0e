//! The parsing pipeline: raw text to physical lines, physical lines to
//! unfolded logical lines, logical lines to content lines, content lines to
//! the component tree. Each logical line is tokenized and handed to the
//! assembler in turn, so the first violation in document order wins.

use vstd::prelude::*;

pub use crate::error::ParserError;

verus! {

use crate::Calendar;
use crate::component::AsmState;
use crate::component::Assembler;
use crate::component::ComponentV;
use crate::component::assemble_finish;
use crate::component::assemble_step;
use crate::component::init_state;
use crate::content_line::parse_content_line_vec;
use crate::content_line::tokenize;
use crate::error::ErrV;
use crate::text::str_to_chars;
use crate::unfold::fetch_next_unfolded_line;
use crate::unfold::lines_view;
use crate::unfold::split_into_lines;
use crate::unfold::split_lines;
use crate::unfold::unfold_lines;

/// Feeding the logical lines through the tokenizer and the assembler, one
/// line at a time; the first error in document order wins.
pub open spec fn run_lines(lines: Seq<Seq<char>>, st: AsmState) -> Result<AsmState, ErrV>
    decreases lines.len(),
{
    if lines.len() == 0 {
        Ok(st)
    } else {
        match tokenize(lines[0]) {
            Err(e) => Err(e),
            Ok(cl) => match assemble_step(st, cl) {
                Err(e) => Err(e),
                Ok(st2) => run_lines(lines.drop_first(), st2),
            },
        }
    }
}

/// What parsing a complete document yields: the root component of the
/// calendar, or the first error in document order.
pub open spec fn parse_spec(text: Seq<char>) -> Result<ComponentV, ErrV> {
    match run_lines(unfold_lines(split_lines(text)), init_state()) {
        Err(e) => Err(e),
        Ok(st) => assemble_finish(st),
    }
}

/// Parses a complete iCalendar document into a calendar, or yields the
/// first error encountered in document order.
#[verifier::loop_isolation(false)]
pub fn from_string(content: &str) -> (r: Result<Calendar, ParserError>)
    ensures
        match r {
            Ok(cal) => parse_spec(content@) == Ok::<ComponentV, ErrV>(cal@),
            Err(e) => parse_spec(content@) == Err::<ComponentV, ErrV>(e@),
        },
        r matches Ok(cal) ==> cal@.name == "VCALENDAR"@,
{
    let chars = str_to_chars(content);
    let raw = split_into_lines(&chars);
    let ghost all = unfold_lines(lines_view(raw@));
    let mut assembler = Assembler::new();
    let mut pos: usize = 0;
    proof {
        assert(lines_view(raw@).skip(0) =~= lines_view(raw@));
    }
    loop
        invariant
            pos <= raw@.len(),
            run_lines(all, init_state()) == run_lines(
                unfold_lines(lines_view(raw@).skip(pos as int)),
                assembler@,
            ),
        decreases raw@.len() - pos,
    {
        let ghost pos_old = pos as int;
        let ghost st_old = assembler@;
        match fetch_next_unfolded_line(&raw, &mut pos) {
            None => {
                proof {
                    assert(lines_view(raw@).skip(pos as int).len() == 0);
                    assert(run_lines(all, init_state()) == Ok::<AsmState, ErrV>(assembler@));
                }
                match assembler.finish() {
                    Ok(root) => {
                        let cal = Calendar { root };
                        proof {
                            assert(parse_spec(content@) == Ok::<ComponentV, ErrV>(cal@));
                        }
                        return Ok(cal);
                    },
                    Err(e) => {
                        proof {
                            assert(parse_spec(content@) == Err::<ComponentV, ErrV>(e@));
                        }
                        return Err(e);
                    },
                }
            },
            Some(line) => {
                let ghost suffix = unfold_lines(lines_view(raw@).skip(pos as int));
                proof {
                    let whole = unfold_lines(lines_view(raw@).skip(pos_old));
                    assert(whole == seq![line@].add(suffix));
                    assert(whole[0] == line@);
                    assert(whole.drop_first() =~= suffix);
                }
                match parse_content_line_vec(&line) {
                    Err(e) => {
                        proof {
                            assert(run_lines(all, init_state()) == Err::<AsmState, ErrV>(
                                e@,
                            ));
                            assert(parse_spec(content@) == Err::<ComponentV, ErrV>(e@));
                        }
                        return Err(e);
                    },
                    Ok(cl) => {
                        let ghost clv = cl@;
                        match assembler.push_line(cl) {
                            Err(e) => {
                                proof {
                                    assert(assemble_step(st_old, clv) == Err::<
                                        AsmState,
                                        ErrV,
                                    >(e@));
                                    assert(run_lines(all, init_state()) == Err::<
                                        AsmState,
                                        ErrV,
                                    >(e@));
                                    assert(parse_spec(content@) == Err::<ComponentV, ErrV>(
                                        e@,
                                    ));
                                }
                                return Err(e);
                            },
                            Ok(_) => {
                                proof {
                                    assert(run_lines(all, init_state()) == run_lines(
                                        suffix,
                                        assembler@,
                                    ));
                                }
                            },
                        }
                    },
                }
            },
        }
    }
}

} // verus!
