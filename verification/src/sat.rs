use vstd::prelude::*;

verus! {

/// A satoshi, by its ordinal number.
#[derive(Debug, PartialEq, Eq, Structural, Copy, Clone, PartialOrd, Ord, Default, Hash)]
pub struct Sat(pub u64);

} // verus!
