use crate::rune_id::RuneId;
use vstd::prelude::*;

verus! {

/// A transfer of `amount` of rune `id` to output `output`.
#[derive(Debug, PartialEq, Eq, Structural, Copy, Clone, Default)]
pub struct Edict {
    pub id: RuneId,
    pub amount: u128,
    pub output: u32,
}

/// The edict that `Edict::from_integers` builds.
pub open spec fn spec_edict_from_integers(output_len: u32, id: RuneId, amount: u128, output: u128) -> Option<Edict> {
    if output <= output_len {
        Some(Edict { id, amount, output: output as u32 })
    } else {
        None
    }
}

impl Edict {
    /// Builds an edict from its integers. `output` may equal `output_len`,
    /// which divides the amount between all outputs that are not
    /// `OP_RETURN`; a larger output gives `None`.
    pub fn from_integers(output_len: u32, id: RuneId, amount: u128, output: u128) -> (r: Option<Self>)
        ensures
            r == spec_edict_from_integers(output_len, id, amount, output),
    {
        if output > u32::MAX as u128 {
            return None;
        }
        let output = output as u32;
        if output > output_len {
            return None;
        }
        Some(Self { id, amount, output })
    }
}

} // verus!
