use crate::epoch::{
    lemma_epoch_starting_sat_bound, lemma_subsidy_bound, spec_epoch_starting_sat, spec_subsidy,
    Epoch, SUBSIDY_HALVING_INTERVAL,
};
use crate::sat::Sat;
use vstd::prelude::*;

verus! {

/// Blocks between two adjustments of the mining difficulty.
pub const DIFFCHANGE_INTERVAL: u32 = 2016;

/// A block height.
#[derive(Debug, PartialEq, Eq, Structural, Copy, Clone, PartialOrd, Ord, Hash)]
pub struct Height(pub u32);

/// The block subsidy at height `n`.
pub open spec fn spec_height_subsidy(n: u32) -> u64 {
    spec_subsidy((n / SUBSIDY_HALVING_INTERVAL) as int)
}

/// The first sat mined at height `n`: the first sat of its epoch plus the
/// subsidies of the blocks of the epoch before it.
pub open spec fn spec_height_starting_sat(n: u32) -> int {
    let e = n / SUBSIDY_HALVING_INTERVAL;
    spec_epoch_starting_sat(e as nat) + (n % SUBSIDY_HALVING_INTERVAL) * spec_subsidy(e as int)
}

/// The first sat of the next block is the first sat of this block plus this
/// block's subsidy.
pub proof fn lemma_starting_sat_next_height(n: u32)
    requires
        n < u32::MAX,
    ensures
        spec_height_starting_sat((n + 1) as u32) == spec_height_starting_sat(n) + spec_height_subsidy(n),
{
    let e = n / SUBSIDY_HALVING_INTERVAL;
    let r = n % SUBSIDY_HALVING_INTERVAL;
    let s = spec_subsidy(e as int) as int;
    let m = (n + 1) as u32;
    if r + 1 < 210_000 {
        assert(m / SUBSIDY_HALVING_INTERVAL == e && m % SUBSIDY_HALVING_INTERVAL == r + 1);
        assert((r + 1) * s == r * s + s) by (nonlinear_arith);
    } else {
        assert(m / SUBSIDY_HALVING_INTERVAL == e + 1 && m % SUBSIDY_HALVING_INTERVAL == 0);
        assert(r * s + s == 210_000 * s) by (nonlinear_arith)
            requires
                r == 209_999,
        ;
    }
}

impl Height {
    /// The height as a number.
    pub fn n(self) -> (r: u32)
        ensures
            r == self.0,
    {
        self.0
    }

    /// The subsidy of the block at this height.
    pub fn subsidy(self) -> (r: u64)
        ensures
            r == spec_height_subsidy(self.0),
    {
        Epoch::from_height(self).subsidy()
    }

    /// The first sat mined in the block at this height.
    pub fn starting_sat(self) -> (r: Sat)
        ensures
            r.0 == spec_height_starting_sat(self.0),
    {
        let epoch = Epoch::from_height(self);
        proof {
            lemma_epoch_starting_sat_bound(epoch.0 as nat);
            lemma_subsidy_bound(epoch.0 as int);
            assert(epoch.0 * SUBSIDY_HALVING_INTERVAL <= self.0) by (nonlinear_arith)
                requires
                    epoch.0 == self.0 / SUBSIDY_HALVING_INTERVAL,
            ;
        }
        let epoch_starting_sat = epoch.starting_sat();
        let epoch_starting_height = epoch.starting_height();
        let offset = self.n() - epoch_starting_height.n();
        let subsidy = epoch.subsidy();
        proof {
            assert(offset == self.0 % SUBSIDY_HALVING_INTERVAL) by (nonlinear_arith)
                requires
                    epoch.0 == self.0 / SUBSIDY_HALVING_INTERVAL,
                    offset == self.0 - epoch.0 * SUBSIDY_HALVING_INTERVAL,
            ;
            assert(offset * subsidy <= 210_000 * 5_000_000_000) by (nonlinear_arith)
                requires
                    offset < 210_000,
                    subsidy <= 5_000_000_000,
            ;
        }
        Sat(epoch_starting_sat.0 + (offset as u64) * subsidy)
    }

    /// The position of the height within its difficulty adjustment period.
    pub fn period_offset(self) -> (r: u32)
        ensures
            r == self.0 % DIFFCHANGE_INTERVAL,
    {
        self.0 % DIFFCHANGE_INTERVAL
    }
}

impl std::ops::Add<u32> for Height {
    type Output = Self;

    fn add(self, other: u32) -> (r: Height) {
        Self(self.0 + other)
    }
}

impl vstd::std_specs::ops::AddSpecImpl<u32> for Height {
    open spec fn obeys_add_spec() -> bool {
        true
    }

    open spec fn add_req(self, other: u32) -> bool {
        self.0 + other <= u32::MAX
    }

    open spec fn add_spec(self, other: u32) -> Height {
        Height((self.0 + other) as u32)
    }
}

impl std::ops::Sub<u32> for Height {
    type Output = Self;

    fn sub(self, other: u32) -> (r: Height) {
        Self(self.0 - other)
    }
}

impl vstd::std_specs::ops::SubSpecImpl<u32> for Height {
    open spec fn obeys_sub_spec() -> bool {
        true
    }

    open spec fn sub_req(self, other: u32) -> bool {
        other <= self.0
    }

    open spec fn sub_spec(self, other: u32) -> Height {
        Height((self.0 - other) as u32)
    }
}

impl PartialEq<u32> for Height {
    fn eq(&self, other: &u32) -> (r: bool) {
        self.0 == *other
    }
}

impl vstd::std_specs::cmp::PartialEqSpecImpl<u32> for Height {
    open spec fn obeys_eq_spec() -> bool {
        true
    }

    open spec fn eq_spec(&self, other: &u32) -> bool {
        self.0 == *other
    }
}

} // verus!
