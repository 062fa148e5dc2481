use crate::rune::Rune;
use crate::terms::Terms;
use vstd::prelude::*;

verus! {

/// The creation of a new rune.
#[derive(Debug, PartialEq, Eq, Copy, Clone, Default)]
pub struct Etching {
    pub divisibility: Option<u8>,
    pub premine: Option<u128>,
    pub rune: Option<Rune>,
    pub spacers: Option<u32>,
    pub symbol: Option<char>,
    pub terms: Option<Terms>,
    pub turbo: bool,
}

/// The premine, or zero.
pub open spec fn premine_or_zero(e: Etching) -> int {
    match e.premine {
        Some(p) => p as int,
        None => 0,
    }
}

/// The mint cap, or zero when there are no terms or no cap.
pub open spec fn cap_or_zero(e: Etching) -> int {
    match e.terms {
        Some(t) => match t.cap {
            Some(c) => c as int,
            None => 0,
        },
        None => 0,
    }
}

/// The mint amount, or zero when there are no terms or no amount.
pub open spec fn amount_or_zero(e: Etching) -> int {
    match e.terms {
        Some(t) => match t.amount {
            Some(a) => a as int,
            None => 0,
        },
        None => 0,
    }
}

/// The total supply: premine plus cap times amount, when it fits in a
/// `u128`.
pub open spec fn spec_supply(e: Etching) -> Option<u128> {
    let minted = cap_or_zero(e) * amount_or_zero(e);
    if minted > u128::MAX || premine_or_zero(e) + minted > u128::MAX {
        None
    } else {
        Some((premine_or_zero(e) + minted) as u128)
    }
}

/// Without terms, or with terms that lack a cap or an amount, nothing is
/// minted: the supply is the premine, zero when there is none.
pub proof fn lemma_supply_without_mints(e: Etching)
    requires
        e.terms is None || e.terms.unwrap().cap is None || e.terms.unwrap().amount is None,
    ensures
        spec_supply(e) == Some(match e.premine {
            Some(p) => p,
            None => 0u128,
        }),
{
}

/// With a cap and an amount, the supply is the premine (zero when there is
/// none) plus cap times amount, and there is none when that exceeds
/// `u128::MAX`.
pub proof fn lemma_supply_with_mints(e: Etching, cap: u128, amount: u128)
    requires
        e.terms matches Some(t) && t.cap == Some(cap) && t.amount == Some(amount),
    ensures
        ({
            let p: int = match e.premine {
                Some(p) => p as int,
                None => 0,
            };
            spec_supply(e) == if p + cap * amount <= u128::MAX {
                Some((p + cap * amount) as u128)
            } else {
                None
            }
        }),
{
    let p: int = match e.premine {
        Some(p) => p as int,
        None => 0,
    };
    assert(p >= 0);
    assert(cap * amount >= 0) by (nonlinear_arith);
}

impl Etching {
    /// Largest number of digits after the decimal point.
    pub const MAX_DIVISIBILITY: u8 = 38;

    /// Largest spacer bit set.
    pub const MAX_SPACERS: u32 = 0b00000111_11111111_11111111_11111111;

    /// Premine plus cap times amount, or `None` where that overflows.
    pub fn supply(&self) -> (r: Option<u128>)
        ensures
            r == spec_supply(*self),
    {
        let premine: u128 = match self.premine {
            Some(p) => p,
            None => 0,
        };
        let cap: u128 = match self.terms {
            Some(terms) => match terms.cap {
                Some(c) => c,
                None => 0,
            },
            None => 0,
        };
        let amount: u128 = match self.terms {
            Some(terms) => match terms.amount {
                Some(a) => a,
                None => 0,
            },
            None => 0,
        };
        let minted = match cap.checked_mul(amount) {
            Some(m) => m,
            None => return None,
        };
        premine.checked_add(minted)
    }
}

} // verus!
