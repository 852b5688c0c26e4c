use vstd::prelude::*;

use crate::state::State;

verus! {

/// One line buffer of a segmented input. It owns its characters and knows the
/// absolute offset of its first character, so that cursor arithmetic stays
/// globally consistent across line boundaries.
#[derive(Debug)]
pub struct Line {
    pub offset: usize,
    pub content: Vec<char>,
}

impl Line {
    pub fn new(offset: usize, content: Vec<char>) -> (r: Line)
        ensures
            r.offset == offset,
            r.content@ == content@,
    {
        Line { offset, content }
    }

    pub fn offset(&self) -> (r: usize)
        ensures
            r == self.offset,
    {
        self.offset
    }

    pub fn len(&self) -> (r: usize)
        ensures
            r == self.content@.len(),
    {
        self.content.len()
    }

    /// The character `lookahead` places past the cursor, if this line owns
    /// that position. The global offset of the cursor is translated into a
    /// position local to this line.
    pub fn peek(&self, state: &State, lookahead: usize) -> (r: Option<char>)
        requires
            state.index >= self.offset,
        ensures
            r == (if state.index - self.offset + lookahead < self.content@.len() {
                Some(self.content@[state.index - self.offset + lookahead])
            } else {
                None::<char>
            }),
    {
        let n = self.content.len();
        let local = state.index() - self.offset;
        match local.checked_add(lookahead) {
            Some(i) => {
                if i < n {
                    Some(self.content[i])
                } else {
                    None
                }
            },
            None => None,
        }
    }

    /// Whether this line holds the same characters as `other`; the absolute
    /// offset does not take part in the comparison. `==` on lines means
    /// exactly this.
    pub fn content_eq(&self, other: &Line) -> (r: bool)
        ensures
            r == (self.content@ == other.content@),
    {
        if self.content.len() != other.content.len() {
            proof {
                assert(self.content@ != other.content@);
            }
            return false;
        }
        let n = self.content.len();
        let mut i: usize = 0;
        while i < n
            invariant
                i <= n,
                n == self.content@.len(),
                n == other.content@.len(),
                forall|j: int| 0 <= j < i ==> self.content@[j] == other.content@[j],
            decreases n - i,
        {
            if self.content[i] != other.content[i] {
                proof {
                    assert(self.content@ != other.content@);
                }
                return false;
            }
            i = i + 1;
        }
        proof {
            assert(self.content@ =~= other.content@);
        }
        true
    }
}

impl PartialEq for Line {
    fn eq(&self, other: &Line) -> (r: bool) {
        self.content_eq(other)
    }
}

impl vstd::std_specs::cmp::PartialEqSpecImpl for Line {
    open spec fn obeys_eq_spec() -> bool {
        true
    }

    open spec fn eq_spec(&self, other: &Line) -> bool {
        self.content@ == other.content@
    }
}

} // verus!
