use vstd::prelude::*;

verus! {

/// What one recognizer answers for one position: it accepts with what it
/// recognized (for a token, its kind and value), it raises a domain error,
/// or it declines and the next recognizer in priority order is consulted.
#[derive(Clone, Copy, Debug)]
pub enum ReaderResult<T, E> {
    Accept(T),
    Fail(E),
    Decline,
}

} // verus!
