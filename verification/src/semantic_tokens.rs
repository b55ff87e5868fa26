//! Semantic token highlighting, which this editor does not offer.
use vstd::prelude::*;

verus! {

/// The state of semantic token highlighting: always off.
#[derive(Clone, Copy, PartialEq, Eq, Structural, Debug)]
pub struct SemanticTokenState;

impl SemanticTokenState {
    /// A state, whatever was asked.
    pub fn new(enabled: bool) -> (r: SemanticTokenState)
        ensures
            r == SemanticTokenState,
    {
        SemanticTokenState
    }

    /// Whether semantic tokens are shown: never.
    pub fn enabled(&self) -> (r: bool)
        ensures
            !r,
    {
        false
    }

    /// Forgets the tokens of a buffer: there are none.
    pub fn invalidate_buffer(&mut self, buffer_id: u64)
        ensures
            *final(self) == *old(self),
    {
    }

    /// Takes new highlighting rules; returns whether anything changed:
    /// nothing does.
    pub fn update_rules<R>(&mut self, new_rules: R) -> (r: bool)
        ensures
            !r,
            *final(self) == *old(self),
    {
        false
    }
}

} // verus!
