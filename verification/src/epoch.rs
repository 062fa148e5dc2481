use crate::height::Height;
use crate::sat::Sat;
use vstd::prelude::*;

verus! {

/// Blocks between two halvings of the subsidy.
pub const SUBSIDY_HALVING_INTERVAL: u32 = 210_000;

/// Satoshis in one bitcoin.
pub const COIN_VALUE: u64 = 100_000_000;

/// A halving epoch: the blocks between two halvings of the subsidy.
#[derive(Debug, PartialEq, Eq, Structural, Copy, Clone, PartialOrd, Ord, Default, Hash)]
pub struct Epoch(pub u32);

/// The block subsidy of epoch `e`: fifty bitcoin halved `e` times, nothing
/// from the first epoch in which that reaches zero.
pub open spec fn spec_subsidy(e: int) -> u64 {
    if 0 <= e < Epoch::FIRST_POST_SUBSIDY {
        5_000_000_000u64 >> (e as u64)
    } else {
        0
    }
}

/// The first sat of epoch `e`: the subsidies of all the blocks of the epochs
/// before it.
pub open spec fn spec_epoch_starting_sat(e: nat) -> nat
    decreases e,
{
    if e == 0 {
        0
    } else {
        spec_epoch_starting_sat((e - 1) as nat) + 210_000 * (spec_subsidy(e - 1) as nat)
    }
}

/// No epoch's subsidy exceeds fifty bitcoin.
pub proof fn lemma_subsidy_bound(e: int)
    ensures
        spec_subsidy(e) <= 5_000_000_000,
{
    if 0 <= e < 33 {
        let x: u64 = 5_000_000_000;
        let s: u64 = e as u64;
        assert(x >> s <= x) by (bit_vector);
    }
}

/// The first sat of an epoch is at most fifty bitcoin for every block of the
/// epochs before it that pays a subsidy.
pub proof fn lemma_epoch_starting_sat_bound(e: nat)
    ensures
        spec_epoch_starting_sat(e) <= (if e < 33 { e } else { 33 }) * 1_050_000_000_000_000,
    decreases e,
{
    if e > 0 {
        lemma_epoch_starting_sat_bound((e - 1) as nat);
        if e - 1 < 33 {
            lemma_subsidy_bound(e - 1);
        }
    }
}

/// From the first epoch without subsidy on, every epoch starts at the same
/// sat.
pub proof fn lemma_epoch_starting_sat_after_subsidy(e: nat)
    requires
        e >= 33,
    ensures
        spec_epoch_starting_sat(e) == spec_epoch_starting_sat(33),
    decreases e,
{
    if e > 33 {
        lemma_epoch_starting_sat_after_subsidy((e - 1) as nat);
    }
}

/// Each epoch pays half the subsidy of the one before it, rounded down.
pub proof fn lemma_subsidy_halves(e: nat)
    ensures
        spec_subsidy(e + 1int) == spec_subsidy(e as int) / 2,
{
    if e < 33 {
        let x: u64 = 5_000_000_000;
        let s: u64 = e as u64;
        assert(s < 33 ==> (x >> (s + 1)) == (x >> s) / 2) by (bit_vector);
        if e == 32 {
            assert((5_000_000_000u64 >> 32u64) / 2 == 0 && 5_000_000_000u64 >> 33u64 == 0) by (bit_vector);
        }
    }
}

impl Epoch {
    /// The first epoch whose blocks pay no subsidy.
    pub const FIRST_POST_SUBSIDY: u32 = 33;

    /// The epoch of a height.
    pub fn from_height(height: Height) -> (r: Epoch)
        ensures
            r.0 == height.0 / SUBSIDY_HALVING_INTERVAL,
    {
        Epoch(height.0 / SUBSIDY_HALVING_INTERVAL)
    }

    /// The subsidy of each block of the epoch.
    pub fn subsidy(self) -> (r: u64)
        ensures
            r == spec_subsidy(self.0 as int),
    {
        if self.0 < Self::FIRST_POST_SUBSIDY {
            (50 * COIN_VALUE) >> self.0
        } else {
            0
        }
    }

    /// The first sat mined in the epoch.
    pub fn starting_sat(self) -> (r: Sat)
        ensures
            r.0 == spec_epoch_starting_sat(self.0 as nat),
    {
        let last: u32 = if self.0 < Self::FIRST_POST_SUBSIDY {
            self.0
        } else {
            Self::FIRST_POST_SUBSIDY
        };
        let mut sat: u64 = 0;
        let mut e: u32 = 0;
        while e < last
            invariant
                e <= last <= 33,
                sat == spec_epoch_starting_sat(e as nat),
            decreases last - e,
        {
            proof {
                lemma_epoch_starting_sat_bound(e as nat + 1);
                lemma_subsidy_bound(e as int);
            }
            sat = sat + SUBSIDY_HALVING_INTERVAL as u64 * Epoch(e).subsidy();
            e = e + 1;
        }
        proof {
            if self.0 >= 33 {
                lemma_epoch_starting_sat_after_subsidy(self.0 as nat);
            }
        }
        Sat(sat)
    }

    /// The first height of the epoch.
    pub fn starting_height(self) -> (r: Height)
        requires
            self.0 * SUBSIDY_HALVING_INTERVAL <= u32::MAX,
        ensures
            r.0 == self.0 * SUBSIDY_HALVING_INTERVAL,
    {
        Height(self.0 * SUBSIDY_HALVING_INTERVAL)
    }
}

} // verus!
