//! The pool snapshot that every computation reads, and the share of a
//! position's term that remains.
use vstd::prelude::*;
use vstd::arithmetic::div_mod::lemma_div_is_ordered;
use vstd::arithmetic::div_mod::lemma_div_multiples_vanish;
use crate::fixed::{div_down, lemma_one_fits, one, outcome, FixedPoint, ShortError};
use crate::wide::{u256_checked_sub, Wide};

verus! {

/// The pool's fixed economic parameters.
#[derive(Clone, Copy, Debug, PartialEq, Eq, Structural)]
pub struct PoolConfig {
    /// The exponent that sets the curve's curvature.
    pub time_stretch: FixedPoint,
    /// The rate of the curve fee.
    pub curve_fee: FixedPoint,
    /// The rate of the flat fee.
    pub flat_fee: FixedPoint,
    /// The share of the curve fee that goes to governance.
    pub governance_lp_fee: FixedPoint,
    /// The length of a position's term, in seconds.
    pub position_duration: Wide,
    /// The vault share price when the pool was set up.
    pub initial_vault_share_price: FixedPoint,
}

/// The pool's reserves and prices at one moment.
#[derive(Clone, Copy, Debug, PartialEq, Eq, Structural)]
pub struct PoolInfo {
    pub share_reserves: FixedPoint,
    pub bond_reserves: FixedPoint,
    /// The price of one vault share in base.
    pub vault_share_price: FixedPoint,
}

/// A configuration together with a snapshot.
#[derive(Clone, Copy, Debug, PartialEq, Eq, Structural)]
pub struct State {
    pub config: PoolConfig,
    pub info: PoolInfo,
}

impl PoolConfig {
    /// Every rate is a fraction of one and the time stretch is positive.
    pub open spec fn valid(&self) -> bool {
        &&& self.time_stretch@ > 0
        &&& self.curve_fee@ <= one()
        &&& self.flat_fee@ <= one()
        &&& self.governance_lp_fee@ <= one()
    }

    /// Tests `valid`.
    pub fn is_valid(&self) -> (r: bool)
        ensures
            r == self.valid(),
    {
        let unit = FixedPoint::one();
        !self.time_stretch.is_zero() && self.curve_fee.le(unit) && self.flat_fee.le(unit)
            && self.governance_lp_fee.le(unit)
    }
}

impl PoolInfo {
    /// The vault share price is positive.
    pub open spec fn valid(&self) -> bool {
        self.vault_share_price@ > 0
    }

    /// Tests `valid`.
    pub fn is_valid(&self) -> (r: bool)
        ensures
            r == self.valid(),
    {
        !self.vault_share_price.is_zero()
    }
}

/// The share of the term that remains at `current`, as a scaled integer
/// rounded down: zero from the maturity on.
pub open spec fn time_remaining(current: nat, maturity: nat, duration: nat) -> nat {
    if maturity <= current || duration == 0 {
        0
    } else {
        div_down((maturity - current) as nat, duration)
    }
}

/// What `time_remaining_scaled` gives: zero from the maturity on, the
/// remaining share before it, and `InvalidTimeRange` where the maturity lies
/// more than one term ahead.
pub open spec fn time_remaining_outcome(current: nat, maturity: nat, duration: nat) -> Result<
    nat,
    ShortError,
> {
    if maturity <= current {
        Ok(0nat)
    } else if maturity - current > duration {
        Err(ShortError::InvalidTimeRange)
    } else {
        Ok(time_remaining(current, maturity, duration))
    }
}

impl State {
    /// Both parts are valid.
    pub open spec fn wf(&self) -> bool {
        self.config.valid() && self.info.valid()
    }

    /// The state of a valid configuration and a valid snapshot, and `None`
    /// where either is not valid.
    pub fn new(config: PoolConfig, info: PoolInfo) -> (r: Option<State>)
        ensures
            r.is_some() <==> config.valid() && info.valid(),
            r.is_some() ==> r.unwrap() == (State { config, info }),
    {
        if config.is_valid() && info.is_valid() {
            Some(State { config, info })
        } else {
            None
        }
    }

    /// The share of a position's term that remains at `current_time`, for a
    /// position that matures at `maturity_time`. Both are in seconds. The
    /// result lies between zero and one.
    pub fn time_remaining_scaled(&self, current_time: Wide, maturity_time: Wide) -> (r: Result<
        FixedPoint,
        ShortError,
    >)
        ensures
            outcome(r) == time_remaining_outcome(
                current_time@,
                maturity_time@,
                self.config.position_duration@,
            ),
            r.is_ok() ==> r.unwrap()@ <= one(),
    {
        let remaining = match u256_checked_sub(maturity_time, current_time) {
            Some(x) => x,
            None => { return Ok(FixedPoint::zero()); },
        };
        if remaining.is_zero() {
            return Ok(FixedPoint::zero());
        }
        let duration = self.config.position_duration;
        if u256_checked_sub(duration, remaining).is_none() {
            return Err(ShortError::InvalidTimeRange);
        }
        proof {
            lemma_time_remaining_at_most_one(current_time@, maturity_time@, duration@);
            lemma_one_fits();
        }
        FixedPoint::from_raw(remaining).div_down(FixedPoint::from_raw(duration))
    }
}

/// Within one term of the maturity the remaining share is at most one, and
/// it is one for a position that has just been opened.
pub proof fn lemma_time_remaining_at_most_one(current: nat, maturity: nat, duration: nat)
    requires
        maturity <= current + duration,
    ensures
        time_remaining(current, maturity, duration) <= one(),
        duration > 0 && maturity == current + duration ==> time_remaining(
            current,
            maturity,
            duration,
        ) == one(),
{
    if maturity > current && duration > 0 {
        let left = (maturity - current) as int;
        let d = duration as int;
        let unit = one() as int;
        assert(left * unit <= d * unit) by (nonlinear_arith)
            requires
                left <= d,
                unit >= 0,
        ;
        lemma_div_is_ordered(left * unit, d * unit, d);
        lemma_div_multiples_vanish(unit, d);
    }
}

/// The remaining share never grows as time passes, and it is zero from the
/// maturity on.
pub proof fn lemma_time_remaining_monotonic(
    earlier: nat,
    later: nat,
    maturity: nat,
    duration: nat,
)
    requires
        earlier <= later,
    ensures
        time_remaining(later, maturity, duration) <= time_remaining(earlier, maturity, duration),
        maturity <= later ==> time_remaining_outcome(later, maturity, duration) == Ok::<
            nat,
            ShortError,
        >(0nat),
        match time_remaining_outcome(earlier, maturity, duration) {
            Ok(before) => match time_remaining_outcome(later, maturity, duration) {
                Ok(after) => after <= before,
                Err(_) => false,
            },
            Err(_) => true,
        },
{
    if maturity > later {
        let a = (maturity - later) as int;
        let b = (maturity - earlier) as int;
        let unit = one() as int;
        assert(a * unit <= b * unit) by (nonlinear_arith)
            requires
                a <= b,
                unit >= 0,
        ;
        if duration > 0 {
            lemma_div_is_ordered(a * unit, b * unit, duration as int);
        }
    }
}

} // verus!
