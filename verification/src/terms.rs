use vstd::prelude::*;

verus! {

/// The terms under which a rune may be minted.
#[derive(Debug, PartialEq, Eq, Copy, Clone, Default)]
pub struct Terms {
    /// Amount of runes each mint creates.
    pub amount: Option<u128>,
    /// Number of mints allowed.
    pub cap: Option<u128>,
    /// Absolute block heights at which minting starts and ends.
    pub height: (Option<u64>, Option<u64>),
    /// Block offsets from the etching at which minting starts and ends.
    pub offset: (Option<u64>, Option<u64>),
}

} // verus!
