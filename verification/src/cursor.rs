//! Character cursor: a one-character-lookahead cursor over decoded text,
//! with peek, advance and expect operations. It fails with `EndOfStream`
//! when input is exhausted while a character was required; the line-level
//! stages scan whole logical lines and share that end-of-stream semantics.

use vstd::prelude::*;

verus! {

use crate::error::ErrV;
use crate::error::ParserError;

/// A forward-only cursor over text, with one character of lookahead.
#[derive(Debug)]
pub struct ParseCursor {
    pub text: Vec<char>,
    pub pos: usize,
}

impl ParseCursor {
    /// The cursor never stands past the end of its text.
    pub open spec fn wf(&self) -> bool {
        self.pos <= self.text@.len()
    }

    /// The characters not yet consumed.
    pub open spec fn remaining(&self) -> Seq<char> {
        self.text@.skip(self.pos as int)
    }

    /// A cursor at the start of the given text.
    pub fn new(text: Vec<char>) -> (c: ParseCursor)
        ensures
            c.wf(),
            c.remaining() == text@,
    {
        let c = ParseCursor { text, pos: 0 };
        proof {
            assert(c.text@.skip(0) =~= c.text@);
        }
        c
    }

    /// The next character, not consumed.
    pub fn peek(&self) -> (r: Option<char>)
        requires
            self.wf(),
        ensures
            match r {
                Some(ch) => self.remaining().len() > 0 && ch == self.remaining()[0],
                None => self.remaining().len() == 0,
            },
    {
        if self.pos < self.text.len() {
            Some(self.text[self.pos])
        } else {
            None
        }
    }

    /// Consumes and yields the next character.
    pub fn advance(&mut self) -> (r: Option<char>)
        requires
            old(self).wf(),
        ensures
            final(self).wf(),
            match r {
                Some(ch) => old(self).remaining().len() > 0 && ch == old(self).remaining()[0]
                    && final(self).remaining() == old(self).remaining().drop_first(),
                None => old(self).remaining().len() == 0 && *final(self) == *old(self),
            },
    {
        if self.pos < self.text.len() {
            let ch = self.text[self.pos];
            self.pos = self.pos + 1;
            proof {
                assert(final(self).remaining() =~= old(self).remaining().drop_first());
            }
            Some(ch)
        } else {
            None
        }
    }

    /// Consumes the next character, which must be `c`: `EndOfStream` when
    /// the input is exhausted, a generic error when another character
    /// stands there.
    pub fn expect(&mut self, c: char) -> (r: Result<(), ParserError>)
        requires
            old(self).wf(),
        ensures
            final(self).wf(),
            match r {
                Ok(_) => old(self).remaining().len() > 0 && old(self).remaining()[0] == c
                    && final(self).remaining() == old(self).remaining().drop_first(),
                Err(e) => *final(self) == *old(self) && (if old(self).remaining().len() == 0 {
                    e@ == ErrV::EndOfStream
                } else {
                    old(self).remaining()[0] != c && e@ == ErrV::Generic(
                        "unexpected character"@,
                    )
                }),
            },
    {
        if self.pos >= self.text.len() {
            return Err(ParserError::EndOfStream);
        }
        if self.text[self.pos] != c {
            return Err(ParserError::Generic("unexpected character"));
        }
        self.pos = self.pos + 1;
        proof {
            assert(final(self).remaining() =~= old(self).remaining().drop_first());
        }
        Ok(())
    }

    /// Consumes the given characters, matching one at a time; on failure
    /// the cursor is left where the first mismatch was found.
    pub fn expect_sequence(&mut self, s: &str) -> (r: Result<(), ParserError>)
        requires
            old(self).wf(),
        ensures
            final(self).wf(),
            match r {
                Ok(_) => old(self).remaining().len() >= s@.len() && old(
                    self,
                ).remaining().take(s@.len() as int) == s@ && final(self).remaining() == old(
                    self,
                ).remaining().skip(s@.len() as int),
                Err(e) => (e@ == ErrV::EndOfStream || e@ == ErrV::Generic(
                    "unexpected character"@,
                )) && !(old(self).remaining().len() >= s@.len() && old(
                    self,
                ).remaining().take(s@.len() as int) == s@),
            },
    {
        let n = s.unicode_len();
        let ghost start = *self;
        let mut i: usize = 0;
        while i < n
            invariant
                old(self).wf(),
                start == *old(self),
                i <= n,
                n == s@.len(),
                self.wf(),
                start.remaining().len() >= i,
                start.remaining().take(i as int) == s@.take(i as int),
                self.remaining() == start.remaining().skip(i as int),
            decreases n - i,
        {
            match self.expect(s.get_char(i)) {
                Ok(_) => {
                    proof {
                        assert(start.remaining()[i as int] == s@[i as int]);
                        assert(start.remaining().take(i + 1 as int) =~= start.remaining().take(
                            i as int,
                        ).push(start.remaining()[i as int]));
                        assert(s@.take(i + 1 as int) =~= s@.take(i as int).push(s@[i as int]));
                        assert(start.remaining().skip(i as int).drop_first()
                            =~= start.remaining().skip(i + 1 as int));
                    }
                },
                Err(e) => {
                    proof {
                        if start.remaining().len() >= s@.len() && start.remaining().take(
                            s@.len() as int,
                        ) == s@ {
                            assert(start.remaining()[i as int] == start.remaining().take(
                                s@.len() as int,
                            )[i as int]);
                            assert(false);
                        }
                    }
                    return Err(e);
                },
            }
            i = i + 1;
        }
        proof {
            assert(start.remaining().take(n as int) == s@.take(n as int));
            assert(s@.take(n as int) =~= s@);
        }
        Ok(())
    }
}

} // verus!
