use crate::flaw::Flaw;
use crate::rune::Rune;
use crate::rune_id::RuneId;
use vstd::prelude::*;

verus! {

/// A malformed runestone: what of it can still be read, and why it is
/// malformed.
#[derive(Debug, PartialEq, Eq, Structural, Copy, Clone, Default)]
pub struct Cenotaph {
    pub etching: Option<Rune>,
    pub flaw: Option<Flaw>,
    pub mint: Option<RuneId>,
}

} // verus!
