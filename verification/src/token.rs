use vstd::prelude::*;

use crate::token_meta::TokenMeta;

verus! {

/// One recognized lexical unit: a caller-defined kind, a caller-defined
/// value, and the span it was read from. Produced exactly once per successful
/// recognition and never mutated afterwards.
#[derive(Clone, Debug)]
pub struct Token<K, V> {
    pub meta: TokenMeta,
    pub kind: K,
    pub value: V,
}

impl<K, V> Token<K, V> {
    pub fn new(meta: TokenMeta, kind: K, value: V) -> (r: Token<K, V>)
        ensures
            r.meta == meta,
            r.kind == kind,
            r.value == value,
    {
        Token { meta, kind, value }
    }

    pub fn meta(&self) -> (r: &TokenMeta)
        ensures
            *r == self.meta,
    {
        &self.meta
    }

    pub fn kind(&self) -> (r: &K)
        ensures
            *r == self.kind,
    {
        &self.kind
    }

    pub fn value(&self) -> (r: &V)
        ensures
            *r == self.value,
    {
        &self.value
    }
}

} // verus!
