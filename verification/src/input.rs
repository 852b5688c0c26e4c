use vstd::prelude::*;

use crate::lines::Lines;
use crate::state::State;
use crate::state::lemma_take_one_more;
use crate::state::lemma_wf_bounds;

verus! {

/// The character at position `i` of `chars`, if there is one. Every
/// observation a character source offers is pinned to this function of its
/// view, so two sources over the same text are indistinguishable.
pub open spec fn spec_peek(chars: Seq<char>, i: int) -> Option<char> {
    if 0 <= i < chars.len() {
        Some(chars[i])
    } else {
        None
    }
}

/// A character source: resident character data behind a peek/read/done
/// contract. Two realizations exist, an in-memory buffer with random access
/// and a sequence of line buffers; consumers may only rely on the contract,
/// never on a single contiguous buffer.
#[derive(Debug)]
pub enum Input {
    Buffer(Vec<char>),
    Split(Lines),
}

impl Input {
    /// The complete text this source ranges over.
    pub open spec fn chars(&self) -> Seq<char> {
        match self {
            Input::Buffer(v) => v@,
            Input::Split(ls) => ls.chars(),
        }
    }

    pub open spec fn wf(&self) -> bool {
        match self {
            Input::Buffer(v) => v@.len() < usize::MAX,
            Input::Split(ls) => ls.wf(),
        }
    }

    /// Wraps an in-memory buffer. The length bound is a machine limit: line
    /// and column numbers must stay representable.
    pub fn from_chars(v: Vec<char>) -> (r: Input)
        requires
            v@.len() < usize::MAX,
        ensures
            r.wf(),
            r.chars() == v@,
    {
        Input::Buffer(v)
    }

    /// Wraps a pre-materialized sequence of line buffers.
    pub fn from_lines(ls: Lines) -> (r: Input)
        requires
            ls.wf(),
        ensures
            r.wf(),
            r.chars() == ls.chars(),
    {
        Input::Split(ls)
    }

    /// The character `lookahead` places past `state`, without consuming
    /// anything. Lookahead is unbounded; past the end of input the answer is
    /// `None`, never an error.
    pub fn peek(&self, state: &State, lookahead: usize) -> (r: Option<char>)
        requires
            self.wf(),
        ensures
            r == spec_peek(self.chars(), state.index + lookahead),
    {
        match self {
            Input::Buffer(v) => {
                let n = v.len();
                match state.index().checked_add(lookahead) {
                    Some(i) => {
                        if i < n {
                            Some(v[i])
                        } else {
                            None
                        }
                    },
                    None => None,
                }
            },
            Input::Split(ls) => ls.peek_at(state.index(), lookahead),
        }
    }

    /// Consumes the character under `state`, if any: the state is advanced by
    /// the one advance rule and the character is returned. At the end of
    /// input the state is left untouched and the answer is `None`.
    pub fn read(&self, state: &mut State) -> (r: Option<char>)
        requires
            self.wf(),
            old(state).wf_in(self.chars()),
        ensures
            final(state).wf_in(self.chars()),
            old(state).index < self.chars().len() ==> r == Some(
                self.chars()[old(state).index as int],
            ) && final(state).index == old(state).index + 1,
            old(state).index >= self.chars().len() ==> r == None::<char> && *final(state) == *old(
                state,
            ),
    {
        let c_opt = self.peek(state, 0);
        match c_opt {
            Some(c) => {
                proof {
                    lemma_wf_bounds(*state, self.chars());
                    lemma_take_one_more(self.chars(), state.index as int);
                }
                state.advance(c);
                Some(c)
            },
            None => None,
        }
    }

    /// Whether `state` is at or past the end of input.
    pub fn done(&self, state: &State) -> (r: bool)
        requires
            self.wf(),
        ensures
            r == (state.index >= self.chars().len()),
    {
        match self {
            Input::Buffer(v) => state.index() >= v.len(),
            Input::Split(ls) => state.index() >= ls.len(),
        }
    }
}

/// A line-buffer source built from a text observes exactly as the in-memory
/// buffer over that text does: both views are the same character sequence,
/// and every peek, read and done answer is a function of the view alone.
pub proof fn lemma_realizations_agree(a: Input, b: Input, index: int, lookahead: int)
    requires
        a.chars() == b.chars(),
    ensures
        spec_peek(a.chars(), index + lookahead) == spec_peek(b.chars(), index + lookahead),
        (index >= a.chars().len()) == (index >= b.chars().len()),
{
}

} // verus!
