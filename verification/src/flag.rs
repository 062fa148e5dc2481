use vstd::prelude::*;

verus! {

/// A bit of the flags field of a message.
#[derive(Debug, PartialEq, Eq, Structural, Copy, Clone)]
pub enum Flag {
    Etching,
    Terms,
    Turbo,
    Cenotaph,
}

impl Flag {
    /// The position of the flag's bit.
    pub open spec fn spec_bit(self) -> u128 {
        match self {
            Flag::Etching => 0,
            Flag::Terms => 1,
            Flag::Turbo => 2,
            Flag::Cenotaph => 127,
        }
    }

    /// The flag's bit, alone.
    pub open spec fn spec_mask(self) -> u128 {
        1u128 << self.spec_bit()
    }

    /// The flag's bit, alone.
    #[verifier::when_used_as_spec(spec_mask)]
    pub fn mask(self) -> (r: u128)
        ensures
            r == self.spec_mask(),
    {
        match self {
            Flag::Etching => 1u128 << 0u128,
            Flag::Terms => 1u128 << 1u128,
            Flag::Turbo => 1u128 << 2u128,
            Flag::Cenotaph => 1u128 << 127u128,
        }
    }

    /// Whether the flag is set in `flags`; clears it there.
    pub fn take(self, flags: &mut u128) -> (r: bool)
        ensures
            r == (*old(flags) & self.spec_mask() != 0),
            *final(flags) == *old(flags) & !self.spec_mask(),
    {
        let mask = self.mask();
        let set = *flags & mask != 0;
        *flags = *flags & !mask;
        set
    }
}

} // verus!
