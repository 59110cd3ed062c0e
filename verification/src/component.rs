//! Component assembler: builds the nested component tree from the flat
//! sequence of content lines, matching `BEGIN:`/`END:` markers with an
//! explicit stack of in-progress components.

use vstd::prelude::*;

verus! {

use crate::content_line::ContentLine;
use crate::content_line::ContentLineV;
use crate::error::ErrV;
use crate::error::ParserError;
use crate::error::err_bad_root;
use crate::error::err_empty_document;
use crate::error::err_property_outside;
use crate::text::str_eq;

broadcast use vstd::std_specs::vec::group_vec_axioms;

/// A named block delimited by `BEGIN:<type>` / `END:<type>`, holding its
/// properties and its nested components in encounter order.
#[derive(Debug)]
pub struct Component {
    pub name: String,
    pub properties: Vec<ContentLine>,
    pub children: Vec<Component>,
}

/// The mathematical shape of a `Component`.
#[verifier::ext_equal]
pub struct ComponentV {
    pub name: Seq<char>,
    pub properties: Seq<ContentLineV>,
    pub children: Seq<ComponentV>,
}

/// The view of a component: every property and child as its own view.
pub open spec fn comp_view(c: Component) -> ComponentV
    decreases c,
{
    ComponentV {
        name: c.name@,
        properties: Seq::new(c.properties@.len(), |i: int| c.properties@[i]@),
        children: Seq::new(
            c.children@.len(),
            |i: int|
                if 0 <= i < c.children@.len() {
                    comp_view(c.children[i])
                } else {
                    ComponentV {
                        name: Seq::<char>::empty(),
                        properties: Seq::<ContentLineV>::empty(),
                        children: Seq::<ComponentV>::empty(),
                    }
                },
        ),
    }
}

impl View for Component {
    type V = ComponentV;

    open spec fn view(&self) -> ComponentV {
        comp_view(*self)
    }
}

/// The views of a sequence of components.
pub open spec fn comps_view(v: Seq<Component>) -> Seq<ComponentV> {
    Seq::new(v.len(), |i: int| comp_view(v[i]))
}

/// The assembler's state: the stack of still-open components, innermost
/// last, and the top-level components completed so far.
#[verifier::ext_equal]
pub struct AsmState {
    pub stack: Seq<ComponentV>,
    pub roots: Seq<ComponentV>,
}

/// The assembler's state before any content line was consumed.
pub open spec fn init_state() -> AsmState {
    AsmState { stack: Seq::<ComponentV>::empty(), roots: Seq::<ComponentV>::empty() }
}

/// One step of the assembler on one content line: `BEGIN` opens a component,
/// `END` closes the innermost one — which must match by type name — and any
/// other line becomes a property of the innermost open component.
pub open spec fn assemble_step(st: AsmState, cl: ContentLineV) -> Result<AsmState, ErrV> {
    if cl.name == "BEGIN"@ {
        Ok(
            AsmState {
                stack: st.stack.push(
                    ComponentV {
                        name: cl.value,
                        properties: Seq::<ContentLineV>::empty(),
                        children: Seq::<ComponentV>::empty(),
                    },
                ),
                roots: st.roots,
            },
        )
    } else if cl.name == "END"@ {
        if st.stack.len() == 0 {
            Err(ErrV::MismatchedComponent(Seq::<char>::empty(), cl.value))
        } else {
            let top = st.stack.last();
            if top.name != cl.value {
                Err(ErrV::MismatchedComponent(top.name, cl.value))
            } else {
                let rest = st.stack.drop_last();
                if rest.len() == 0 {
                    Ok(AsmState { stack: rest, roots: st.roots.push(top) })
                } else {
                    let parent = rest.last();
                    let parent2 = ComponentV {
                        name: parent.name,
                        properties: parent.properties,
                        children: parent.children.push(top),
                    };
                    Ok(AsmState { stack: rest.drop_last().push(parent2), roots: st.roots })
                }
            }
        }
    } else {
        if st.stack.len() == 0 {
            Err(err_property_outside())
        } else {
            let top = st.stack.last();
            let top2 = ComponentV {
                name: top.name,
                properties: top.properties.push(cl),
                children: top.children,
            };
            Ok(AsmState { stack: st.stack.drop_last().push(top2), roots: st.roots })
        }
    }
}

/// The end of the input: a non-empty stack is an unterminated component,
/// no completed component is an empty document, and the single completed
/// component must be a `VCALENDAR`.
pub open spec fn assemble_finish(st: AsmState) -> Result<ComponentV, ErrV> {
    if st.stack.len() > 0 {
        Err(ErrV::EndOfStream)
    } else if st.roots.len() == 0 {
        Err(err_empty_document())
    } else if st.roots.len() == 1 && st.roots[0].name == "VCALENDAR"@ {
        Ok(st.roots[0])
    } else {
        Err(err_bad_root())
    }
}

/// The component assembler: consumes content lines one at a time and keeps
/// the stack of open components and the completed top-level components.
#[derive(Debug)]
pub struct Assembler {
    pub stack: Vec<Component>,
    pub roots: Vec<Component>,
}

impl View for Assembler {
    type V = AsmState;

    open spec fn view(&self) -> AsmState {
        AsmState { stack: comps_view(self.stack@), roots: comps_view(self.roots@) }
    }
}

impl Assembler {
    /// An assembler that has consumed nothing.
    pub fn new() -> (a: Assembler)
        ensures
            a@ == init_state(),
    {
        let a = Assembler { stack: Vec::new(), roots: Vec::new() };
        proof {
            assert(a@ =~= init_state());
        }
        a
    }

    /// Consumes one content line; on an error the assembler is unchanged.
    pub fn push_line(&mut self, cl: ContentLine) -> (r: Result<(), ParserError>)
        ensures
            match r {
                Ok(_) => assemble_step(old(self)@, cl@) == Ok::<AsmState, ErrV>(final(self)@),
                Err(e) => assemble_step(old(self)@, cl@) == Err::<AsmState, ErrV>(e@)
                    && final(self)@ == old(self)@,
            },
    {
        let ghost st = self@;
        let ghost clv = cl@;
        if str_eq(cl.name.as_str(), "BEGIN") {
            let c = Component { name: cl.value, properties: Vec::new(), children: Vec::new() };
            proof {
                assert(comp_view(c).name == clv.value);
                assert(comp_view(c).properties =~= Seq::<ContentLineV>::empty());
                assert(comp_view(c).children =~= Seq::<ComponentV>::empty());
                assert(comp_view(c) =~= ComponentV {
                    name: clv.value,
                    properties: Seq::<ContentLineV>::empty(),
                    children: Seq::<ComponentV>::empty(),
                });
            }
            self.stack.push(c);
            proof {
                assert(comps_view(self.stack@) =~= st.stack.push(comp_view(c)));
                assert(self@ =~= AsmState { stack: st.stack.push(comp_view(c)), roots: st.roots });
            }
            Ok(())
        } else if str_eq(cl.name.as_str(), "END") {
            if self.stack.len() == 0 {
                return Err(ParserError::MismatchedComponent(String::new(), cl.value));
            }
            let top_name_matches = str_eq(
                self.stack[self.stack.len() - 1].name.as_str(),
                cl.value.as_str(),
            );
            proof {
                assert(comps_view(self.stack@)[self.stack@.len() - 1] == comp_view(
                    self.stack@[self.stack@.len() - 1],
                ));
            }
            if !top_name_matches {
                let expected = self.stack[self.stack.len() - 1].name.clone();
                return Err(ParserError::MismatchedComponent(expected, cl.value));
            }
            let closed = self.stack.pop().unwrap();
            proof {
                assert(comp_view(closed) == st.stack.last());
                assert(comps_view(self.stack@) =~= st.stack.drop_last());
            }
            if self.stack.len() == 0 {
                self.roots.push(closed);
                proof {
                    assert(comps_view(self.roots@) =~= st.roots.push(st.stack.last()));
                    assert(self@ =~= AsmState {
                        stack: st.stack.drop_last(),
                        roots: st.roots.push(st.stack.last()),
                    });
                }
                Ok(())
            } else {
                let ghost rest = st.stack.drop_last();
                let mut parent = self.stack.pop().unwrap();
                let ghost parent_old = comp_view(parent);
                proof {
                    assert(parent_old == rest.last());
                }
                parent.children.push(closed);
                proof {
                    assert(comp_view(parent).name == parent_old.name);
                    assert(comp_view(parent).properties =~= parent_old.properties);
                    assert(comp_view(parent).children =~= parent_old.children.push(
                        st.stack.last(),
                    ));
                    assert(comp_view(parent) =~= ComponentV {
                        name: parent_old.name,
                        properties: parent_old.properties,
                        children: parent_old.children.push(st.stack.last()),
                    });
                }
                self.stack.push(parent);
                proof {
                    assert(comps_view(self.stack@) =~= rest.drop_last().push(comp_view(parent)));
                    assert(self@ =~= AsmState {
                        stack: rest.drop_last().push(comp_view(parent)),
                        roots: st.roots,
                    });
                }
                Ok(())
            }
        } else {
            if self.stack.len() == 0 {
                return Err(ParserError::property_outside());
            }
            let mut top = self.stack.pop().unwrap();
            let ghost top_old = comp_view(top);
            proof {
                assert(top_old == st.stack.last());
                assert(comps_view(self.stack@) =~= st.stack.drop_last());
            }
            top.properties.push(cl);
            proof {
                assert(comp_view(top).name == top_old.name);
                assert(comp_view(top).properties =~= top_old.properties.push(clv));
                assert(comp_view(top).children =~= top_old.children);
                assert(comp_view(top) =~= ComponentV {
                    name: top_old.name,
                    properties: top_old.properties.push(clv),
                    children: top_old.children,
                });
            }
            self.stack.push(top);
            proof {
                assert(comps_view(self.stack@) =~= st.stack.drop_last().push(comp_view(top)));
                assert(self@ =~= AsmState {
                    stack: st.stack.drop_last().push(comp_view(top)),
                    roots: st.roots,
                });
            }
            Ok(())
        }
    }

    /// Ends the input: yields the single completed `VCALENDAR` component,
    /// or the error that the end of the document reveals.
    pub fn finish(&mut self) -> (r: Result<Component, ParserError>)
        ensures
            match r {
                Ok(c) => assemble_finish(old(self)@) == Ok::<ComponentV, ErrV>(comp_view(c)),
                Err(e) => assemble_finish(old(self)@) == Err::<ComponentV, ErrV>(e@),
            },
    {
        let ghost st = self@;
        if self.stack.len() > 0 {
            return Err(ParserError::EndOfStream);
        }
        if self.roots.len() == 0 {
            return Err(ParserError::empty_document());
        }
        if self.roots.len() > 1 {
            return Err(ParserError::bad_root());
        }
        let root = self.roots.pop().unwrap();
        proof {
            assert(comp_view(root) == st.roots[0]);
        }
        if str_eq(root.name.as_str(), "VCALENDAR") {
            Ok(root)
        } else {
            Err(ParserError::bad_root())
        }
    }
}

} // verus!
