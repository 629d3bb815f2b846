//! The cursor: a position-tracking, single-character-lookahead iterator
//! over the indexed character sequence of the source text.

use vstd::prelude::*;

use crate::text::copy_chars;

verus! {

/// `s` starts with `lit` at offset `i`.
pub open spec fn has_prefix_at(s: Seq<char>, i: int, lit: Seq<char>) -> bool {
    0 <= i && i + lit.len() <= s.len() && s.subrange(i, i + lit.len()) == lit
}

/// A monotonically advancing index into the source characters.
pub struct Cursor {
    pub chars: Vec<char>,
    pub pos: usize,
}

impl Cursor {
    /// The position never runs past the end of the source.
    pub open spec fn wf(self) -> bool {
        self.pos <= self.chars@.len()
    }

    pub fn new(source: &Vec<char>) -> (r: Cursor)
        ensures
            r.wf(),
            r.chars@ == source@,
            r.pos == 0,
    {
        let chars = copy_chars(source, 0, source.len());
        proof {
            assert(source@.subrange(0, source@.len() as int) =~= source@);
        }
        Cursor { chars, pos: 0 }
    }

    /// Returns the next character and its position without consuming it.
    pub fn peek(&self) -> (r: Option<(usize, char)>)
        requires
            self.wf(),
        ensures
            r == (if self.pos < self.chars@.len() {
                Some((self.pos, self.chars@[self.pos as int]))
            } else {
                None::<(usize, char)>
            }),
    {
        if self.pos < self.chars.len() {
            Some((self.pos, self.chars[self.pos]))
        } else {
            None
        }
    }

    /// Consumes and returns the next character and its position.
    pub fn next(&mut self) -> (r: Option<(usize, char)>)
        requires
            old(self).wf(),
        ensures
            final(self).wf(),
            final(self).chars@ == old(self).chars@,
            if old(self).pos < old(self).chars@.len() {
                r == Some((old(self).pos, old(self).chars@[old(self).pos as int]))
                    && final(self).pos == old(self).pos + 1
            } else {
                r == None::<(usize, char)> && final(self).pos == old(self).pos
            },
    {
        if self.pos < self.chars.len() {
            let item = (self.pos, self.chars[self.pos]);
            self.pos = self.pos + 1;
            Some(item)
        } else {
            None
        }
    }

    /// Rewinds exactly one position.
    pub fn back(&mut self)
        requires
            old(self).wf(),
            old(self).pos > 0,
        ensures
            final(self).wf(),
            final(self).chars@ == old(self).chars@,
            final(self).pos == old(self).pos - 1,
    {
        self.pos = self.pos - 1;
    }

    /// Returns the last consumed character and its position, if any.
    pub fn peek_back(&self) -> (r: Option<(usize, char)>)
        requires
            self.wf(),
        ensures
            r == (if self.pos > 0 {
                Some(((self.pos - 1) as usize, self.chars@[self.pos - 1]))
            } else {
                None::<(usize, char)>
            }),
    {
        if self.pos > 0 {
            Some((self.pos - 1, self.chars[self.pos - 1]))
        } else {
            None
        }
    }

    /// Consumes the next character only if it equals `c`.
    pub fn next_if_eq(&mut self, c: char) -> (r: Option<(usize, char)>)
        requires
            old(self).wf(),
        ensures
            final(self).wf(),
            final(self).chars@ == old(self).chars@,
            if old(self).pos < old(self).chars@.len() && old(self).chars@[old(self).pos as int]
                == c {
                r == Some((old(self).pos, c)) && final(self).pos == old(self).pos + 1
            } else {
                r == None::<(usize, char)> && final(self).pos == old(self).pos
            },
    {
        if self.pos < self.chars.len() && self.chars[self.pos] == c {
            let item = (self.pos, self.chars[self.pos]);
            self.pos = self.pos + 1;
            Some(item)
        } else {
            None
        }
    }

    /// Consumes `literal` in full if the remaining source starts with it;
    /// otherwise consumes nothing.
    pub fn next_if_is(&mut self, literal: &Vec<char>) -> (r: bool)
        requires
            old(self).wf(),
        ensures
            final(self).wf(),
            final(self).chars@ == old(self).chars@,
            if has_prefix_at(old(self).chars@, old(self).pos as int, literal@) {
                r == true && final(self).pos == old(self).pos + literal@.len()
            } else {
                r == false && final(self).pos == old(self).pos
            },
    {
        if literal.len() > self.chars.len() - self.pos {
            return false;
        }
        let mut k: usize = 0;
        while k < literal.len()
            invariant
                self.wf(),
                k <= literal@.len(),
                self.pos + literal@.len() <= self.chars@.len(),
                self.chars@.len() <= usize::MAX,
                forall|j: int| 0 <= j < k ==> self.chars@[self.pos + j] == literal@[j],
            decreases literal@.len() - k,
        {
            if self.chars[self.pos + k] != literal[k] {
                proof {
                    let s = self.chars@;
                    let i = self.pos as int;
                    if has_prefix_at(s, i, literal@) {
                        assert(s.subrange(i, i + literal@.len())[k as int] == literal@[k as int]);
                    }
                }
                return false;
            }
            k = k + 1;
        }
        proof {
            let s = self.chars@;
            let i = self.pos as int;
            assert(s.subrange(i, i + literal@.len()) =~= literal@);
        }
        self.pos = self.pos + literal.len();
        true
    }

    /// The current offset.
    pub fn position(&self) -> (r: usize)
        ensures
            r == self.pos,
    {
        self.pos
    }
}

} // verus!
