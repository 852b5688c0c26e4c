use vstd::prelude::*;

use crate::state::State;

verus! {

/// A failure yielded by the tokenization loop. Errors are sequence elements,
/// interleaved with tokens in input order; none is ever swallowed.
#[derive(Clone, Copy, Debug)]
pub enum TokenError<E> {
    /// A recognizer raised a domain error of its own; the payload is opaque
    /// to the engine and propagated as-is.
    Reader(E),
    /// Every recognizer declined at this position; the state names the line
    /// and column of the offending character.
    NoMatch(State),
    /// A recognizer accepted without consuming input. This is a protocol
    /// violation and fatal for the session.
    NoAdvance(State),
}

} // verus!
