//! The fees of a short: the curve fee and the governance fee at opening, the
//! curve fee and the flat fee at closing.
use vstd::prelude::*;
use crate::fixed::{
    lemma_mul_by_one, lemma_mul_by_zero, lemma_one_fits, mul_down, mul_up, one, outcome,
    represented, FixedPoint, ShortError,
};
use crate::curve::{chained, spot_price_outcome};
use crate::state::State;
use crate::wide::wide_limit;

verus! {

/// The curve fee for opening a short of `bond` bonds at the spot price
/// `spot`: the rate times the distance of the price from one, times the
/// bonds, each product rounded up.
pub open spec fn open_curve_fee(phi_curve: nat, bond: nat, spot: nat) -> nat {
    mul_up(mul_up(phi_curve, (one() - spot) as nat), bond)
}

/// Whether every step of `open_curve_fee` can be represented.
pub open spec fn open_curve_fee_fits(phi_curve: nat, bond: nat, spot: nat) -> bool {
    &&& spot <= one()
    &&& mul_up(phi_curve, (one() - spot) as nat) < wide_limit()
    &&& open_curve_fee(phi_curve, bond, spot) < wide_limit()
}

/// The fee where it can be represented; `ArithmeticUnderflow` for a spot
/// price above one, and `ArithmeticOverflow` where the rate or the fee does
/// not fit in 256 bits.
pub open spec fn open_curve_fee_outcome(phi_curve: nat, bond: nat, spot: nat) -> Result<
    nat,
    ShortError,
> {
    if spot > one() {
        Err(ShortError::ArithmeticUnderflow)
    } else if !open_curve_fee_fits(phi_curve, bond, spot) {
        Err(ShortError::ArithmeticOverflow)
    } else {
        Ok(open_curve_fee(phi_curve, bond, spot))
    }
}

/// The governance fee: the governance rate times the curve fee, rounded down.
pub open spec fn open_governance_fee(phi_gov: nat, curve_fee: nat) -> nat {
    mul_down(curve_fee, phi_gov)
}

/// The governance fee of an opening, wherever the curve fee and its product
/// with the governance rate can be represented.
pub open spec fn open_governance_fee_outcome(
    phi_curve: nat,
    phi_gov: nat,
    bond: nat,
    spot: nat,
) -> Result<nat, ShortError> {
    match open_curve_fee_outcome(phi_curve, bond, spot) {
        Err(e) => Err(e),
        Ok(fee) => represented(open_governance_fee(phi_gov, fee)),
    }
}

/// The curve fee for closing: the opening's curve fee times the share of the
/// term that remains, rounded up.
pub open spec fn close_curve_fee(phi_curve: nat, bond: nat, spot: nat, remaining: nat) -> nat {
    mul_up(open_curve_fee(phi_curve, bond, spot), remaining)
}

/// The closing curve fee, wherever each step can be represented.
pub open spec fn close_curve_fee_outcome(
    phi_curve: nat,
    bond: nat,
    spot: nat,
    remaining: nat,
) -> Result<nat, ShortError> {
    match open_curve_fee_outcome(phi_curve, bond, spot) {
        Err(e) => Err(e),
        Ok(fee) => represented(mul_up(fee, remaining)),
    }
}

/// The flat fee for closing: the bonds times the share of the term that has
/// passed, times the rate, each product rounded up.
pub open spec fn close_flat_fee(phi_flat: nat, bond: nat, remaining: nat) -> nat {
    mul_up(mul_up(bond, (one() - remaining) as nat), phi_flat)
}

/// The flat fee where it can be represented; `ArithmeticUnderflow` for a
/// remaining share above one, `ArithmeticOverflow` where a product does not
/// fit in 256 bits.
pub open spec fn close_flat_fee_outcome(phi_flat: nat, bond: nat, remaining: nat) -> Result<
    nat,
    ShortError,
> {
    if remaining > one() {
        Err(ShortError::ArithmeticUnderflow)
    } else if mul_up(bond, (one() - remaining) as nat) >= wide_limit() {
        Err(ShortError::ArithmeticOverflow)
    } else {
        represented(close_flat_fee(phi_flat, bond, remaining))
    }
}

impl State {
    /// The curve fee that a trader pays to open a short of `bond_amount`
    /// bonds, at the spot price before the trade.
    pub fn open_short_curve_fee(&self, bond_amount: FixedPoint, spot_price: FixedPoint) -> (r:
        Result<FixedPoint, ShortError>)
        ensures
            outcome(r) == open_curve_fee_outcome(self.config.curve_fee@, bond_amount@, spot_price@),
    {
        let distance = FixedPoint::one().checked_sub(spot_price)?;
        let rate = self.config.curve_fee.mul_up(distance)?;
        rate.mul_up(bond_amount)
    }

    /// The part of the opening's curve fee that goes to governance.
    pub fn open_short_governance_fee(
        &self,
        bond_amount: FixedPoint,
        spot_price: FixedPoint,
    ) -> (r: Result<FixedPoint, ShortError>)
        ensures
            outcome(r) == open_governance_fee_outcome(
                self.config.curve_fee@,
                self.config.governance_lp_fee@,
                bond_amount@,
                spot_price@,
            ),
    {
        let curve_fee = self.open_short_curve_fee(bond_amount, spot_price)?;
        curve_fee.mul_down(self.config.governance_lp_fee)
    }

    /// The curve fee that a trader pays to close a short of `bond_amount`
    /// bonds at the pool's spot price, with `normalized_time_remaining` of
    /// the term left.
    pub fn close_short_curve_fee(
        &self,
        bond_amount: FixedPoint,
        normalized_time_remaining: FixedPoint,
    ) -> (r: Result<FixedPoint, ShortError>)
        ensures
            outcome(r) == chained(
                spot_price_outcome(
                    self.config.initial_vault_share_price@,
                    self.info.share_reserves@,
                    self.info.bond_reserves@,
                    self.config.time_stretch@,
                ),
                |spot: nat|
                    close_curve_fee_outcome(
                        self.config.curve_fee@,
                        bond_amount@,
                        spot,
                        normalized_time_remaining@,
                    ),
            ),
    {
        let spot_price = self.calculate_spot_price()?;
        self.close_short_curve_fee_at(bond_amount, spot_price, normalized_time_remaining)
    }

    /// The curve fee that a trader pays to close a short of `bond_amount`
    /// bonds at the spot price `spot_price`, with
    /// `normalized_time_remaining` of the term left.
    pub fn close_short_curve_fee_at(
        &self,
        bond_amount: FixedPoint,
        spot_price: FixedPoint,
        normalized_time_remaining: FixedPoint,
    ) -> (r: Result<FixedPoint, ShortError>)
        ensures
            outcome(r) == close_curve_fee_outcome(
                self.config.curve_fee@,
                bond_amount@,
                spot_price@,
                normalized_time_remaining@,
            ),
    {
        let curve_fee = self.open_short_curve_fee(bond_amount, spot_price)?;
        curve_fee.mul_up(normalized_time_remaining)
    }

    /// The flat fee that a trader pays to close a short of `bond_amount`
    /// bonds with `normalized_time_remaining` of the term left.
    pub fn close_short_flat_fee(
        &self,
        bond_amount: FixedPoint,
        normalized_time_remaining: FixedPoint,
    ) -> (r: Result<FixedPoint, ShortError>)
        ensures
            outcome(r) == close_flat_fee_outcome(
                self.config.flat_fee@,
                bond_amount@,
                normalized_time_remaining@,
            ),
    {
        let passed = FixedPoint::one().checked_sub(normalized_time_remaining)?;
        let matured = bond_amount.mul_up(passed)?;
        matured.mul_up(self.config.flat_fee)
    }
}

/// The governance fee is the governance rate times the curve fee, for every
/// spot price and every amount of bonds, wherever it is charged at all.
pub proof fn lemma_governance_fee_is_share_of_curve_fee(
    phi_curve: nat,
    phi_gov: nat,
    bond: nat,
    spot: nat,
)
    ensures
        match open_governance_fee_outcome(phi_curve, phi_gov, bond, spot) {
            Ok(fee) => open_curve_fee_outcome(phi_curve, bond, spot) == Ok::<nat, ShortError>(
                open_curve_fee(phi_curve, bond, spot),
            ) && fee == mul_down(open_curve_fee(phi_curve, bond, spot), phi_gov),
            Err(_) => true,
        },
{
}

/// With the whole term left, closing costs the curve fee of opening and no
/// flat fee.
pub proof fn lemma_fees_with_whole_term_left(phi_curve: nat, phi_flat: nat, bond: nat, spot: nat)
    ensures
        close_curve_fee(phi_curve, bond, spot, one()) == open_curve_fee(phi_curve, bond, spot),
        close_curve_fee_outcome(phi_curve, bond, spot, one()) == open_curve_fee_outcome(
            phi_curve,
            bond,
            spot,
        ),
        close_flat_fee(phi_flat, bond, one()) == 0,
        close_flat_fee_outcome(phi_flat, bond, one()) == Ok::<nat, ShortError>(0nat),
{
    lemma_mul_by_one(open_curve_fee(phi_curve, bond, spot));
    lemma_mul_by_zero(bond);
    lemma_mul_by_zero(phi_flat);
    lemma_one_fits();
}

/// At maturity, closing costs no curve fee, and the flat fee is the flat
/// rate times the bonds.
pub proof fn lemma_fees_at_maturity(phi_curve: nat, phi_flat: nat, bond: nat, spot: nat)
    requires
        bond < wide_limit(),
    ensures
        close_curve_fee(phi_curve, bond, spot, 0) == 0,
        open_curve_fee_outcome(phi_curve, bond, spot).is_ok() ==> close_curve_fee_outcome(
            phi_curve,
            bond,
            spot,
            0,
        ) == Ok::<nat, ShortError>(0nat),
        close_flat_fee(phi_flat, bond, 0) == mul_up(bond, phi_flat),
        close_flat_fee_outcome(phi_flat, bond, 0) == represented(mul_up(bond, phi_flat)),
{
    let fee = open_curve_fee(phi_curve, bond, spot);
    lemma_mul_by_zero(fee);
    lemma_mul_by_one(bond);
    lemma_one_fits();
}

/// A short of no bonds pays no fee of any kind.
pub proof fn lemma_no_bonds_no_fee(
    phi_curve: nat,
    phi_flat: nat,
    phi_gov: nat,
    spot: nat,
    remaining: nat,
)
    ensures
        open_curve_fee(phi_curve, 0, spot) == 0,
        open_governance_fee(phi_gov, open_curve_fee(phi_curve, 0, spot)) == 0,
        close_curve_fee(phi_curve, 0, spot, remaining) == 0,
        close_flat_fee(phi_flat, 0, remaining) == 0,
{
    lemma_mul_by_zero(mul_up(phi_curve, (one() - spot) as nat));
    lemma_mul_by_zero(phi_gov);
    lemma_mul_by_zero(remaining);
    lemma_mul_by_zero((one() - remaining) as nat);
    lemma_mul_by_zero(phi_flat);
}

/// With valid rates, a spot price of at most one and a remaining share of
/// at most one, every fee of a short of no bonds is charged, and is zero.
pub proof fn lemma_no_bonds_fees_are_charged(
    phi_curve: nat,
    phi_flat: nat,
    phi_gov: nat,
    spot: nat,
    remaining: nat,
)
    requires
        phi_curve <= one(),
        spot <= one(),
        remaining <= one(),
    ensures
        open_curve_fee_outcome(phi_curve, 0, spot) == Ok::<nat, ShortError>(0nat),
        open_governance_fee_outcome(phi_curve, phi_gov, 0, spot) == Ok::<nat, ShortError>(0nat),
        close_curve_fee_outcome(phi_curve, 0, spot, remaining) == Ok::<nat, ShortError>(0nat),
        close_flat_fee_outcome(phi_flat, 0, remaining) == Ok::<nat, ShortError>(0nat),
{
    lemma_no_bonds_no_fee(phi_curve, phi_flat, phi_gov, spot, remaining);
    lemma_one_fits();
    let distance = (one() - spot) as nat;
    let product = phi_curve * distance;
    assert(product <= one() * one()) by (nonlinear_arith)
        requires
            product == phi_curve * distance,
            phi_curve <= one(),
            distance <= one(),
    ;
    assert(one() * one() == 1_000_000_000_000_000_000_000_000_000_000_000_000nat)
        by (nonlinear_arith);
    assert(mul_up(phi_curve, distance) <= one() + 1);
    lemma_mul_by_zero((one() - remaining) as nat);
}

} // verus!
