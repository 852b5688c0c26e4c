use vstd::prelude::*;

use crate::input::Input;
use crate::reader_result::ReaderResult;
use crate::state::State;

verus! {

/// One recognizer unit, supplied by the caller. A recognizer is stateless
/// with respect to the lexing session; it may hold its own immutable
/// configuration.
///
/// A recognizer only classifies: it hands back the kind and value of the
/// token it recognized. The span metadata is computed by the tokenization
/// loop from the committed and scratch states, never by the recognizer.
pub trait Reader {
    type Kind;

    type Value;

    type Error;

    /// The ordering key of this recognizer: higher priorities are tried
    /// earlier. The default is the lowest priority.
    fn priority(&self) -> (r: usize)
        default_ensures
            r == 0,
    {
        0
    }

    /// Attempts to recognize one token starting at the committed state
    /// `current`. The scratch state `next` starts as a copy of `current`; the
    /// recognizer advances it by peeking and reading against `source`, and
    /// only on acceptance does the loop commit it. Whatever the outcome, the
    /// scratch state must remain a position in the input that was reached by
    /// the advance rule, and it must never move backwards.
    fn read(&self, source: &Input, current: &State, next: &mut State) -> (r: ReaderResult<
        (Self::Kind, Self::Value),
        Self::Error,
    >)
        requires
            source.wf(),
            current.wf_in(source.chars()),
            *old(next) == *current,
        ensures
            final(next).wf_in(source.chars()),
            final(next).index >= old(next).index,
    ;
}

} // verus!
