//! Opening a short: the base that the trader deposits, and the reserves that
//! the pool holds once the curve has been traded.
use vstd::prelude::*;
use crate::curve::{chained, short_principal_outcome, spot_price_outcome};
use crate::fees::{lemma_no_bonds_fees_are_charged, open_curve_fee_outcome};
use crate::fixed::{lemma_mul_by_zero, mul_down, one, outcome, FixedPoint, ShortError};
use crate::state::{PoolInfo, State};
use crate::wide::wide_limit;

verus! {

/// The base that a trader deposits to open a short of `bond` bonds, for
/// which the curve pays `share_proceeds` shares.
///
/// The trader owes the bonds at their face value and the curve fee. The
/// proceeds of the sale, taken to base at the vault share price at which the
/// checkpoint opened (the current price where `open_share_price` is zero),
/// are set against that.
///
/// `CurveInfeasibleTrade` where the proceeds exceed the share reserves;
/// `ArithmeticOverflow` where a product or the sum owed cannot be
/// represented; `ArithmeticUnderflow` for a spot price above one, or where
/// the proceeds exceed what is owed.
pub open spec fn open_short_deposit_outcome(
    share_reserves: nat,
    share_price: nat,
    phi_curve: nat,
    bond: nat,
    spot: nat,
    share_proceeds: nat,
    open_share_price: nat,
) -> Result<nat, ShortError> {
    let opened_at = if open_share_price == 0 {
        share_price
    } else {
        open_share_price
    };
    if share_proceeds > share_reserves {
        Err(ShortError::CurveInfeasibleTrade)
    } else if mul_down(opened_at, share_proceeds) >= wide_limit() {
        Err(ShortError::ArithmeticOverflow)
    } else {
        match open_curve_fee_outcome(phi_curve, bond, spot) {
            Err(e) => Err(e),
            Ok(fee) => {
                let owed = bond + fee;
                let proceeds = mul_down(opened_at, share_proceeds);
                if owed >= wide_limit() {
                    Err(ShortError::ArithmeticOverflow)
                } else if owed < proceeds {
                    Err(ShortError::ArithmeticUnderflow)
                } else {
                    Ok((owed - proceeds) as nat)
                }
            },
        }
    }
}

/// The share reserves and the bond reserves once the pool has paid
/// `share_proceeds` shares and taken `bond` bonds: `CurveInfeasibleTrade`
/// where the pool does not hold the shares, `ArithmeticOverflow` where the
/// bond reserves cannot be represented.
pub open spec fn reserves_after_open_short(
    share_reserves: nat,
    bond_reserves: nat,
    bond: nat,
    share_proceeds: nat,
) -> Result<(nat, nat), ShortError> {
    if share_proceeds > share_reserves {
        Err(ShortError::CurveInfeasibleTrade)
    } else if bond_reserves + bond >= wide_limit() {
        Err(ShortError::ArithmeticOverflow)
    } else {
        Ok(((share_reserves - share_proceeds) as nat, bond_reserves + bond))
    }
}

impl State {
    /// The base that a trader deposits to open a short of `bond_amount`
    /// bonds. `spot_price` is the curve's price before the trade, and
    /// `share_proceeds` is what the curve pays, in shares, for the bonds.
    pub fn open_short_deposit(
        &self,
        bond_amount: FixedPoint,
        spot_price: FixedPoint,
        share_proceeds: FixedPoint,
        open_vault_share_price: FixedPoint,
    ) -> (r: Result<FixedPoint, ShortError>)
        ensures
            outcome(r) == open_short_deposit_outcome(
                self.info.share_reserves@,
                self.info.vault_share_price@,
                self.config.curve_fee@,
                bond_amount@,
                spot_price@,
                share_proceeds@,
                open_vault_share_price@,
            ),
    {
        if !share_proceeds.le(self.info.share_reserves) {
            return Err(ShortError::CurveInfeasibleTrade);
        }
        let opened_at = if open_vault_share_price.is_zero() {
            self.info.vault_share_price
        } else {
            open_vault_share_price
        };
        let proceeds = opened_at.mul_down(share_proceeds)?;
        let curve_fee = self.open_short_curve_fee(bond_amount, spot_price)?;
        let owed = bond_amount.checked_add(curve_fee)?;
        owed.checked_sub(proceeds)
    }

    /// The snapshot after a short of `bond_amount` bonds has been traded on
    /// the curve, before any fee: the pool has paid `share_proceeds` shares
    /// and taken the bonds.
    pub fn reserves_after_open_short(
        &self,
        bond_amount: FixedPoint,
        share_proceeds: FixedPoint,
    ) -> (r: Result<PoolInfo, ShortError>)
        ensures
            match r {
                Ok(next) => reserves_after_open_short(
                    self.info.share_reserves@,
                    self.info.bond_reserves@,
                    bond_amount@,
                    share_proceeds@,
                ) == Ok::<(nat, nat), ShortError>((next.share_reserves@, next.bond_reserves@))
                    && next.vault_share_price == self.info.vault_share_price,
                Err(e) => reserves_after_open_short(
                    self.info.share_reserves@,
                    self.info.bond_reserves@,
                    bond_amount@,
                    share_proceeds@,
                ) == Err::<(nat, nat), ShortError>(e),
            },
    {
        let share_reserves = match self.info.share_reserves.checked_sub(share_proceeds) {
            Ok(v) => v,
            Err(_) => { return Err(ShortError::CurveInfeasibleTrade); },
        };
        let bond_reserves = self.info.bond_reserves.checked_add(bond_amount)?;
        Ok(PoolInfo { share_reserves, bond_reserves, vault_share_price: self.info.vault_share_price })
    }

    /// The spot price once a short of `bond_amount` bonds has been traded on
    /// the curve for `share_proceeds` shares, before any fee.
    pub fn spot_price_after_trade(
        &self,
        bond_amount: FixedPoint,
        share_proceeds: FixedPoint,
    ) -> (r: Result<FixedPoint, ShortError>)
        ensures
            outcome(r) == spot_price_after_trade_outcome(
                self.config.initial_vault_share_price@,
                self.info.share_reserves@,
                self.info.bond_reserves@,
                self.config.time_stretch@,
                bond_amount@,
                share_proceeds@,
            ),
    {
        let next = self.reserves_after_open_short(bond_amount, share_proceeds)?;
        let after = State { config: self.config, info: next };
        after.calculate_spot_price()
    }

    /// The spot price once a short of `bond_amount` bonds has been traded on
    /// the curve, before any fee.
    pub fn calculate_spot_price_after_short(&self, bond_amount: FixedPoint) -> (r: Result<
        FixedPoint,
        ShortError,
    >)
        ensures
            outcome(r) == spot_price_after_short_outcome(*self, bond_amount@),
    {
        let share_proceeds = self.calculate_short_principal(bond_amount)?;
        self.spot_price_after_trade(bond_amount, share_proceeds)
    }

    /// The base that a trader deposits to open a short of `bond_amount`
    /// bonds in a checkpoint that opened at `open_vault_share_price`: the
    /// deposit at the pool's spot price, for what the curve pays for the
    /// bonds.
    pub fn calculate_open_short(
        &self,
        bond_amount: FixedPoint,
        open_vault_share_price: FixedPoint,
    ) -> (r: Result<FixedPoint, ShortError>)
        ensures
            outcome(r) == open_short_outcome(*self, bond_amount@, open_vault_share_price@),
    {
        let spot_price = self.calculate_spot_price()?;
        let share_proceeds = self.calculate_short_principal(bond_amount)?;
        self.open_short_deposit(bond_amount, spot_price, share_proceeds, open_vault_share_price)
    }
}

/// The spot price at the reserves that the short leaves.
pub open spec fn spot_price_after_trade_outcome(
    initial_share_price: nat,
    share_reserves: nat,
    bond_reserves: nat,
    time_stretch: nat,
    bond: nat,
    share_proceeds: nat,
) -> Result<nat, ShortError> {
    match reserves_after_open_short(share_reserves, bond_reserves, bond, share_proceeds) {
        Ok(next) => spot_price_outcome(initial_share_price, next.0, next.1, time_stretch),
        Err(e) => Err(e),
    }
}

/// What the curve pays, in shares, for a short of `bond` bonds on `state`.
pub open spec fn pool_short_principal(state: State, bond: nat) -> Result<nat, ShortError> {
    short_principal_outcome(
        state.config.initial_vault_share_price@,
        state.info.vault_share_price@,
        state.info.share_reserves@,
        state.info.bond_reserves@,
        state.config.time_stretch@,
        bond,
    )
}

/// The spot price of `state` once a short of `bond` bonds has been traded
/// for what the curve pays for them.
pub open spec fn spot_price_after_short_outcome(state: State, bond: nat) -> Result<
    nat,
    ShortError,
> {
    chained(
        pool_short_principal(state, bond),
        |share_proceeds: nat|
            spot_price_after_trade_outcome(
                state.config.initial_vault_share_price@,
                state.info.share_reserves@,
                state.info.bond_reserves@,
                state.config.time_stretch@,
                bond,
                share_proceeds,
            ),
    )
}

/// The deposit for a short of `bond` bonds on `state`: the pool's spot
/// price, then what the curve pays for the bonds, then the deposit for both.
pub open spec fn open_short_outcome(state: State, bond: nat, open_share_price: nat) -> Result<
    nat,
    ShortError,
> {
    chained(
        spot_price_outcome(
            state.config.initial_vault_share_price@,
            state.info.share_reserves@,
            state.info.bond_reserves@,
            state.config.time_stretch@,
        ),
        |spot: nat|
            chained(
                pool_short_principal(state, bond),
                |share_proceeds: nat|
                    open_short_deposit_outcome(
                        state.info.share_reserves@,
                        state.info.vault_share_price@,
                        state.config.curve_fee@,
                        bond,
                        spot,
                        share_proceeds,
                        open_share_price,
                    ),
            ),
    )
}

/// A trade of no bonds for no shares leaves the spot price where it was.
pub proof fn lemma_no_trade_keeps_the_price(
    initial_share_price: nat,
    share_reserves: nat,
    bond_reserves: nat,
    time_stretch: nat,
)
    requires
        bond_reserves < wide_limit(),
    ensures
        spot_price_after_trade_outcome(
            initial_share_price,
            share_reserves,
            bond_reserves,
            time_stretch,
            0,
            0,
        ) == spot_price_outcome(initial_share_price, share_reserves, bond_reserves, time_stretch),
{
}

/// A larger short, for which the curve pays no less, leaves the pool with
/// strictly more bonds and with no more shares than a smaller one.
pub proof fn lemma_larger_short_moves_reserves_further(
    share_reserves: nat,
    bond_reserves: nat,
    smaller: nat,
    larger: nat,
    smaller_proceeds: nat,
    larger_proceeds: nat,
)
    requires
        smaller < larger,
        smaller_proceeds <= larger_proceeds,
        reserves_after_open_short(share_reserves, bond_reserves, larger, larger_proceeds).is_ok(),
    ensures
        reserves_after_open_short(share_reserves, bond_reserves, smaller, smaller_proceeds).is_ok(),
        reserves_after_open_short(share_reserves, bond_reserves, smaller, smaller_proceeds).unwrap().1
            < reserves_after_open_short(
            share_reserves,
            bond_reserves,
            larger,
            larger_proceeds,
        ).unwrap().1,
        reserves_after_open_short(share_reserves, bond_reserves, smaller, smaller_proceeds).unwrap().0
            >= reserves_after_open_short(
            share_reserves,
            bond_reserves,
            larger,
            larger_proceeds,
        ).unwrap().0,
{
}

/// A short of no bonds, for which the curve pays nothing, asks for no
/// deposit.
pub proof fn lemma_no_bonds_no_deposit(
    share_reserves: nat,
    share_price: nat,
    phi_curve: nat,
    spot: nat,
    open_share_price: nat,
)
    requires
        phi_curve <= one(),
        spot <= one(),
    ensures
        open_short_deposit_outcome(
            share_reserves,
            share_price,
            phi_curve,
            0,
            spot,
            0,
            open_share_price,
        ) == Ok::<nat, ShortError>(0nat),
{
    lemma_no_bonds_fees_are_charged(phi_curve, 0, 0, spot, 0);
    lemma_mul_by_zero(share_price);
    lemma_mul_by_zero(open_share_price);
    assert(share_price * 0 == 0 && open_share_price * 0 == 0) by (nonlinear_arith);
}

} // verus!
