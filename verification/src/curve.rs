//! The curve: the spot price of bonds at the pool's reserves, and the shares
//! that it pays for bonds.
use vstd::prelude::*;
use crate::fixed::{
    div_down, div_up, lemma_one_fits, lemma_quotient_at_most_product, mul_div_down, mul_div_up,
    mul_up, one, outcome, pow_result, represented, FixedPoint, ShortError,
};
use crate::state::State;
use crate::wide::{pow_outcome, wide_limit};

verus! {

/// The price of a bond in base at the given reserves: the share reserves at
/// the initial vault share price, over the bond reserves, raised to the time
/// stretch. The quotient is rounded down.
///
/// `CurveInfeasibleTrade` for a pool without bonds, `ArithmeticOverflow`
/// where the quotient or the power cannot be represented.
pub open spec fn spot_price_outcome(
    initial_share_price: nat,
    share_reserves: nat,
    bond_reserves: nat,
    time_stretch: nat,
) -> Result<nat, ShortError> {
    if bond_reserves == 0 {
        Err(ShortError::CurveInfeasibleTrade)
    } else if mul_div_down(initial_share_price, share_reserves, bond_reserves) >= wide_limit() {
        Err(ShortError::ArithmeticOverflow)
    } else {
        pow_result(
            pow_outcome(
                mul_div_down(initial_share_price, share_reserves, bond_reserves),
                time_stretch,
            ),
        )
    }
}

/// The curve's constant, rounded up, from the two powers that make it: the
/// power of the share reserves taken at the ratio of the current to the
/// initial share price, plus the power of the bond reserves.
pub open spec fn curve_constant_of(
    initial_share_price: nat,
    share_price: nat,
    shares_power: nat,
    bonds_power: nat,
) -> Result<nat, ShortError> {
    represented(mul_div_up(share_price, shares_power, initial_share_price) + bonds_power)
}

/// The curve's constant at the given reserves: `curve_constant_of` the
/// share reserves at the initial share price, rounded up and raised to
/// `exponent`, and the bond reserves raised to `exponent`.
pub open spec fn curve_constant_outcome(
    initial_share_price: nat,
    share_price: nat,
    share_reserves: nat,
    bond_reserves: nat,
    exponent: nat,
) -> Result<nat, ShortError> {
    if mul_up(initial_share_price, share_reserves) >= wide_limit() {
        Err(ShortError::ArithmeticOverflow)
    } else {
        match (
            pow_outcome(mul_up(initial_share_price, share_reserves), exponent),
            pow_outcome(bond_reserves, exponent),
        ) {
            (Some(shares), Some(bonds)) => curve_constant_of(
                initial_share_price,
                share_price,
                shares,
                bonds,
            ),
            _ => Err(ShortError::ArithmeticOverflow),
        }
    }
}

/// What is left of the constant once the bonds' power is taken from it, at
/// the ratio of the initial to the current share price, rounded up.
///
/// `CurveInfeasibleTrade` where the bonds' power exceeds the constant.
pub open spec fn share_side_of(
    initial_share_price: nat,
    share_price: nat,
    constant: nat,
    bonds_power: nat,
) -> Result<nat, ShortError> {
    if constant < bonds_power {
        Err(ShortError::CurveInfeasibleTrade)
    } else {
        represented(mul_div_up((constant - bonds_power) as nat, initial_share_price, share_price))
    }
}

/// The inverse of `exponent`, rounded so that the power of `base` comes out
/// no smaller: up for a base of one or more, down for a smaller one.
pub open spec fn inverse_exponent(base: nat, exponent: nat) -> nat {
    if base >= one() {
        div_up(one(), exponent)
    } else {
        div_down(one(), exponent)
    }
}

/// The shares that the curve pays where `left_power`, at the initial share
/// price, stays in the pool: the share reserves less what stays, rounded
/// down, and nothing where more would stay than the pool holds.
pub open spec fn shares_paid_of(
    initial_share_price: nat,
    share_reserves: nat,
    left_power: nat,
) -> Result<nat, ShortError> {
    if div_up(left_power, initial_share_price) >= wide_limit() {
        Err(ShortError::ArithmeticOverflow)
    } else if share_reserves > div_up(left_power, initial_share_price) {
        Ok((share_reserves - div_up(left_power, initial_share_price)) as nat)
    } else {
        Ok(0nat)
    }
}

/// The shares that the curve pays for `bond` bonds: the constant at the
/// pool's reserves, the share side that is left of it once the bonds are in,
/// raised to the inverse of the exponent, and what the pool then pays.
///
/// `CurveInfeasibleTrade` for a time stretch of one or more, for a share
/// price of zero, and where the bonds exceed the constant;
/// `ArithmeticOverflow` where a step cannot be represented.
pub open spec fn short_principal_outcome(
    initial_share_price: nat,
    share_price: nat,
    share_reserves: nat,
    bond_reserves: nat,
    time_stretch: nat,
    bond: nat,
) -> Result<nat, ShortError> {
    let exponent = (one() - time_stretch) as nat;
    if time_stretch >= one() || initial_share_price == 0 || share_price == 0 {
        Err(ShortError::CurveInfeasibleTrade)
    } else if bond_reserves + bond >= wide_limit() {
        Err(ShortError::ArithmeticOverflow)
    } else {
        match curve_constant_outcome(
            initial_share_price,
            share_price,
            share_reserves,
            bond_reserves,
            exponent,
        ) {
            Err(e) => Err(e),
            Ok(constant) => match pow_outcome(bond_reserves + bond, exponent) {
                None => Err(ShortError::ArithmeticOverflow),
                Some(bonds) => match share_side_of(
                    initial_share_price,
                    share_price,
                    constant,
                    bonds,
                ) {
                    Err(e) => Err(e),
                    Ok(side) => match pow_outcome(side, inverse_exponent(side, exponent)) {
                        None => Err(ShortError::ArithmeticOverflow),
                        Some(left) => shares_paid_of(initial_share_price, share_reserves, left),
                    },
                },
            },
        }
    }
}

/// `rest` of what `first` gave, and the error of `first` where it gave none.
pub open spec fn chained(
    first: Result<nat, ShortError>,
    rest: spec_fn(nat) -> Result<nat, ShortError>,
) -> Result<nat, ShortError> {
    match first {
        Ok(v) => rest(v),
        Err(e) => Err(e),
    }
}

/// The inverse of `exponent`, rounded up for a base of one or more and down
/// for a smaller one.
pub fn inverse_of_exponent(base: FixedPoint, exponent: FixedPoint) -> (r: FixedPoint)
    requires
        exponent@ > 0,
    ensures
        r@ == inverse_exponent(base@, exponent@),
{
    let unit = FixedPoint::one();
    proof {
        lemma_one_fits();
        lemma_quotient_at_most_product(one() * one(), exponent@);
    }
    let inverse = if unit.le(base) {
        unit.div_up(exponent)
    } else {
        unit.div_down(exponent)
    };
    match inverse {
        Ok(v) => v,
        Err(_) => unit,
    }
}

impl State {
    /// The pool's spot price.
    pub fn calculate_spot_price(&self) -> (r: Result<FixedPoint, ShortError>)
        ensures
            outcome(r) == spot_price_outcome(
                self.config.initial_vault_share_price@,
                self.info.share_reserves@,
                self.info.bond_reserves@,
                self.config.time_stretch@,
            ),
    {
        if self.info.bond_reserves.is_zero() {
            return Err(ShortError::CurveInfeasibleTrade);
        }
        let ratio = self.config.initial_vault_share_price.mul_div_down(
            self.info.share_reserves,
            self.info.bond_reserves,
        )?;
        ratio.pow(self.config.time_stretch)
    }

    /// The curve's constant from the two powers that make it.
    pub fn curve_constant_of(&self, shares_power: FixedPoint, bonds_power: FixedPoint) -> (r:
        Result<FixedPoint, ShortError>)
        requires
            self.config.initial_vault_share_price@ > 0,
        ensures
            outcome(r) == curve_constant_of(
                self.config.initial_vault_share_price@,
                self.info.vault_share_price@,
                shares_power@,
                bonds_power@,
            ),
    {
        let priced = self.info.vault_share_price.mul_div_up(
            shares_power,
            self.config.initial_vault_share_price,
        )?;
        priced.checked_add(bonds_power)
    }

    /// What is left of `constant` once `bonds_power` is taken from it, at
    /// the ratio of the initial to the current share price.
    pub fn share_side_of(&self, constant: FixedPoint, bonds_power: FixedPoint) -> (r: Result<
        FixedPoint,
        ShortError,
    >)
        requires
            self.info.vault_share_price@ > 0,
        ensures
            outcome(r) == share_side_of(
                self.config.initial_vault_share_price@,
                self.info.vault_share_price@,
                constant@,
                bonds_power@,
            ),
    {
        let difference = match constant.checked_sub(bonds_power) {
            Ok(v) => v,
            Err(_) => { return Err(ShortError::CurveInfeasibleTrade); },
        };
        difference.mul_div_up(self.config.initial_vault_share_price, self.info.vault_share_price)
    }

    /// The shares that the curve pays where `left_power`, at the initial
    /// share price, stays in the pool.
    pub fn shares_paid_of(&self, left_power: FixedPoint) -> (r: Result<FixedPoint, ShortError>)
        requires
            self.config.initial_vault_share_price@ > 0,
        ensures
            outcome(r) == shares_paid_of(
                self.config.initial_vault_share_price@,
                self.info.share_reserves@,
                left_power@,
            ),
    {
        let left = left_power.div_up(self.config.initial_vault_share_price)?;
        match self.info.share_reserves.checked_sub(left) {
            Ok(paid) => Ok(paid),
            Err(_) => Ok(FixedPoint::zero()),
        }
    }

    /// The curve's constant at the pool's reserves, for the exponent
    /// `exponent`.
    fn curve_constant(&self, exponent: FixedPoint) -> (r: Result<FixedPoint, ShortError>)
        requires
            self.config.initial_vault_share_price@ > 0,
        ensures
            outcome(r) == curve_constant_outcome(
                self.config.initial_vault_share_price@,
                self.info.vault_share_price@,
                self.info.share_reserves@,
                self.info.bond_reserves@,
                exponent@,
            ),
    {
        let initial = self.config.initial_vault_share_price;
        let shares = initial.mul_up(self.info.share_reserves)?.pow(exponent);
        let bonds = self.info.bond_reserves.pow(exponent);
        match (shares, bonds) {
            (Ok(shares), Ok(bonds)) => self.curve_constant_of(shares, bonds),
            _ => Err(ShortError::ArithmeticOverflow),
        }
    }

    /// The shares that the curve pays for a short of `bond_amount` bonds.
    pub fn calculate_short_principal(&self, bond_amount: FixedPoint) -> (r: Result<
        FixedPoint,
        ShortError,
    >)
        ensures
            outcome(r) == short_principal_outcome(
                self.config.initial_vault_share_price@,
                self.info.vault_share_price@,
                self.info.share_reserves@,
                self.info.bond_reserves@,
                self.config.time_stretch@,
                bond_amount@,
            ),
    {
        let unit = FixedPoint::one();
        if unit.le(self.config.time_stretch) || self.config.initial_vault_share_price.is_zero()
            || self.info.vault_share_price.is_zero() {
            return Err(ShortError::CurveInfeasibleTrade);
        }
        let exponent = unit.checked_sub(self.config.time_stretch)?;
        let bond_reserves = self.info.bond_reserves.checked_add(bond_amount)?;
        let constant = self.curve_constant(exponent)?;
        let bonds = bond_reserves.pow(exponent)?;
        let side = self.share_side_of(constant, bonds)?;
        let inverse = inverse_of_exponent(side, exponent);
        let left = side.pow(inverse)?;
        self.shares_paid_of(left)
    }
}

} // verus!
