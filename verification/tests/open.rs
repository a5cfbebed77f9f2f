use hyperdrive_short::entry::{calcOpenShort, spotPriceAfterShort};
use hyperdrive_short::fixed::{FixedPoint, ShortError};
use hyperdrive_short::state::{PoolConfig, PoolInfo, State};
use hyperdrive_short::wide::Wide;

fn amount(text: &str) -> FixedPoint {
    FixedPoint::parse(text).unwrap()
}

fn pool_config() -> PoolConfig {
    PoolConfig {
        time_stretch: amount("44463125629060298"),
        curve_fee: amount("10000000000000000"),
        flat_fee: amount("500000000000000"),
        governance_lp_fee: amount("150000000000000000"),
        position_duration: Wide::from_u64(604800),
        initial_vault_share_price: amount("1000000000000000000"),
    }
}

fn pool_info(share_price: &str) -> PoolInfo {
    PoolInfo {
        share_reserves: amount("100000000000000000000000"),
        bond_reserves: amount("120000000000000000000000"),
        vault_share_price: amount(share_price),
    }
}

fn pool(share_price: &str) -> State {
    State::new(pool_config(), pool_info(share_price)).unwrap()
}

const UNIT: &str = "1000000000000000000";
const BONDS: &str = "1000000000000000000000";
const SPOT: &str = "950000000000000000";
const PROCEEDS: &str = "940000000000000000000";
const TOO_MANY: &str = "200000000000000000000000";

#[test]
fn deposit_at_par_share_price() {
    // 1000 of bonds + 0.5 curve fee - 940 proceeds.
    let deposit = pool(UNIT).open_short_deposit(amount(BONDS), amount(SPOT), amount(PROCEEDS), amount(UNIT));
    assert_eq!(deposit, Ok(amount("60500000000000000000")));
}

#[test]
fn short_principal_is_about_the_bonds_at_the_spot_price() {
    let s = pool(UNIT);
    let principal = s.calculate_short_principal(amount(BONDS)).unwrap();
    // The spot price is about 0.9919, and the sale moves it down a little.
    assert!(amount("990000000000000000000").le(principal));
    assert!(principal.le(amount("992000000000000000000")));
    let twice = s.calculate_short_principal(amount("2000000000000000000000")).unwrap();
    assert!(principal.le(twice));
    assert!(twice.le(principal.checked_add(principal).unwrap()));
}

#[test]
fn short_principal_of_a_pool_without_a_curve() {
    let mut steep = pool_config();
    steep.time_stretch = amount(UNIT);
    let s = State::new(steep, pool_info(UNIT)).unwrap();
    assert_eq!(s.calculate_short_principal(amount(BONDS)), Err(ShortError::CurveInfeasibleTrade));

    let mut unpriced = pool_config();
    unpriced.initial_vault_share_price = amount("0");
    let s = State::new(unpriced, pool_info(UNIT)).unwrap();
    assert_eq!(s.calculate_short_principal(amount(BONDS)), Err(ShortError::CurveInfeasibleTrade));

    let s = State { config: pool_config(), info: pool_info("0") };
    assert_eq!(s.calculate_short_principal(amount(BONDS)), Err(ShortError::CurveInfeasibleTrade));
    assert_eq!(
        calcOpenShort(&pool_info("0"), &pool_config(), BONDS, UNIT),
        Err(ShortError::CurveInfeasibleTrade)
    );
}

#[test]
fn short_principal_of_more_bonds_than_the_curve_takes() {
    let s = pool(UNIT);
    assert_eq!(
        s.calculate_short_principal(amount(TOO_MANY)),
        Err(ShortError::CurveInfeasibleTrade)
    );
    assert_eq!(
        calcOpenShort(&pool_info(UNIT), &pool_config(), TOO_MANY, UNIT),
        Err(ShortError::CurveInfeasibleTrade)
    );
    assert_eq!(
        spotPriceAfterShort(&pool_info(UNIT), &pool_config(), TOO_MANY, UNIT),
        Err(ShortError::CurveInfeasibleTrade)
    );
}

#[test]
fn deposit_at_the_pool_price() {
    let s = pool(UNIT);
    let spot = s.calculate_spot_price().unwrap();
    let principal = s.calculate_short_principal(amount(BONDS)).unwrap();
    let text = calcOpenShort(&pool_info(UNIT), &pool_config(), BONDS, UNIT).unwrap();
    assert_eq!(
        Ok(amount(&text)),
        s.open_short_deposit(amount(BONDS), spot, principal, amount(UNIT))
    );
    assert_eq!(Ok(amount(&text)), s.calculate_open_short(amount(BONDS), amount(UNIT)));
    // 1000 of bonds + about 0.08 curve fee - about 991.9 proceeds.
    assert!(amount("8000000000000000000").le(amount(&text)));
    assert!(amount(&text).le(amount("11000000000000000000")));
}

#[test]
fn spot_price_after_a_short() {
    let s = pool(UNIT);
    let principal = s.calculate_short_principal(amount(BONDS)).unwrap();
    let text = spotPriceAfterShort(&pool_info(UNIT), &pool_config(), BONDS, UNIT).unwrap();
    assert_eq!(Ok(amount(&text)), s.calculate_spot_price_after_short(amount(BONDS)));
    assert_eq!(Ok(amount(&text)), s.spot_price_after_trade(amount(BONDS), principal));
    let next = s.reserves_after_open_short(amount(BONDS), principal).unwrap();
    let after = State { config: pool_config(), info: next };
    assert_eq!(Ok(amount(&text)), after.calculate_spot_price());
    let before = s.calculate_spot_price().unwrap();
    assert!(amount(&text).le(before));
    assert_ne!(amount(&text), before);
}

#[test]
fn a_larger_short_leaves_a_lower_spot_price() {
    let s = pool(UNIT);
    let mut last = s.calculate_spot_price().unwrap();
    for bonds in ["1000000000000000000", BONDS, "2000000000000000000000", "30000000000000000000000"] {
        let price = s.calculate_spot_price_after_short(amount(bonds)).unwrap();
        assert!(price.le(last));
        assert_ne!(price, last);
        last = price;
    }
}

#[test]
fn spot_price_after_a_trade_that_the_pool_cannot_pay() {
    let s = pool(UNIT);
    assert_eq!(
        s.spot_price_after_trade(amount(BONDS), amount("100000000000000000000001")),
        Err(ShortError::CurveInfeasibleTrade)
    );
    assert_eq!(
        spotPriceAfterShort(&pool_info(UNIT), &pool_config(), BONDS, "x"),
        Err(ShortError::InputParse)
    );
    assert_eq!(
        spotPriceAfterShort(&pool_info(UNIT), &pool_config(), "1 000", UNIT),
        Err(ShortError::InputParse)
    );
}

#[test]
fn deposit_takes_the_proceeds_at_the_opening_price() {
    // 1000 of bonds + 0.5 curve fee - 850 shares at 1.05.
    let deposit = pool("1100000000000000000").open_short_deposit(
        amount(BONDS),
        amount(SPOT),
        amount("850000000000000000000"),
        amount("1050000000000000000"),
    );
    assert_eq!(deposit, Ok(amount("108000000000000000000")));
}

#[test]
fn deposit_takes_the_current_price_for_an_unset_opening_price() {
    let s = pool("1100000000000000000");
    let unset = s.open_short_deposit(amount(BONDS), amount(SPOT), amount("850000000000000000000"), amount("0"));
    let current = s.open_short_deposit(
        amount(BONDS),
        amount(SPOT),
        amount("850000000000000000000"),
        amount("1100000000000000000"),
    );
    assert_eq!(unset, current);
    // 1000 of bonds + 0.5 curve fee - 850 shares at 1.1.
    assert_eq!(unset, Ok(amount("65500000000000000000")));
}

#[test]
fn deposit_rounds_the_proceeds_down_and_the_fee_up() {
    // 7 wei of shares at 1.5 are 10 wei of base, and the fee on 10 wei of
    // bonds is 1 wei.
    let s = pool(UNIT);
    let deposit = s.open_short_deposit(amount("10"), amount(SPOT), amount("7"), amount("1500000000000000000"));
    assert_eq!(deposit, Ok(amount("1")));
}

#[test]
fn no_bonds_no_deposit() {
    let deposit = pool(UNIT).open_short_deposit(amount("0"), amount(SPOT), amount("0"), amount(UNIT));
    assert_eq!(deposit, Ok(amount("0")));
}

#[test]
fn proceeds_beyond_the_share_reserves_are_infeasible() {
    let deposit = pool(UNIT).open_short_deposit(
        amount(BONDS),
        amount(SPOT),
        amount("100000000000000000000001"),
        amount(UNIT),
    );
    assert_eq!(deposit, Err(ShortError::CurveInfeasibleTrade));
}

#[test]
fn proceeds_beyond_what_is_owed_underflow() {
    let deposit = pool(UNIT).open_short_deposit(
        amount(BONDS),
        amount(SPOT),
        amount("1000500000000000000001"),
        amount(UNIT),
    );
    assert_eq!(deposit, Err(ShortError::ArithmeticUnderflow));
    let exact = pool(UNIT).open_short_deposit(
        amount(BONDS),
        amount(SPOT),
        amount("1000500000000000000000"),
        amount(UNIT),
    );
    assert_eq!(exact, Ok(amount("0")));
}

#[test]
fn deposit_overflows_on_bonds_too_large_to_price() {
    let huge = "115792089237316195423570985008687907853269984665640564039457584007913129639935";
    let deposit = pool(UNIT).open_short_deposit(amount(huge), amount(SPOT), amount("0"), amount(UNIT));
    assert_eq!(deposit, Err(ShortError::ArithmeticOverflow));
}

#[test]
fn deposit_with_a_spot_price_above_one_underflows() {
    let deposit = pool(UNIT).open_short_deposit(
        amount(BONDS),
        amount("1000000000000000001"),
        amount(PROCEEDS),
        amount(UNIT),
    );
    assert_eq!(deposit, Err(ShortError::ArithmeticUnderflow));
}

#[test]
fn deposit_refuses_text_that_is_no_number() {
    assert_eq!(
        calcOpenShort(&pool_info(UNIT), &pool_config(), "12a", UNIT),
        Err(ShortError::InputParse)
    );
    assert_eq!(
        calcOpenShort(&pool_info(UNIT), &pool_config(), BONDS, "-5"),
        Err(ShortError::InputParse)
    );
}

#[test]
fn reserves_after_a_short() {
    let s = pool(UNIT);
    let next = s.reserves_after_open_short(amount(BONDS), amount(PROCEEDS)).unwrap();
    assert_eq!(next.share_reserves, amount("99060000000000000000000"));
    assert_eq!(next.bond_reserves, amount("121000000000000000000000"));
    assert_eq!(next.vault_share_price, amount(UNIT));
}

#[test]
fn a_larger_short_leaves_more_bonds_and_no_more_shares() {
    let s = pool(UNIT);
    let small = s.reserves_after_open_short(amount("1000"), amount("900")).unwrap();
    let large = s.reserves_after_open_short(amount("1001"), amount("900")).unwrap();
    assert!(small.bond_reserves.le(large.bond_reserves));
    assert_ne!(small.bond_reserves, large.bond_reserves);
    assert!(large.share_reserves.le(small.share_reserves));
}

#[test]
fn reserves_after_a_short_that_cannot_be_traded() {
    let s = pool(UNIT);
    assert_eq!(
        s.reserves_after_open_short(amount(BONDS), amount("100000000000000000000001")),
        Err(ShortError::CurveInfeasibleTrade)
    );
    let huge = "115792089237316195423570985008687907853269984665640564039457584007913129639935";
    assert_eq!(
        s.reserves_after_open_short(amount(huge), amount(PROCEEDS)),
        Err(ShortError::ArithmeticOverflow)
    );
    let all = s.reserves_after_open_short(amount("0"), amount("100000000000000000000000")).unwrap();
    assert!(all.share_reserves.is_zero());
}

#[test]
fn the_empty_text_is_no_amount_and_no_price() {
    let (i, c) = (pool_info(UNIT), pool_config());
    assert_eq!(calcOpenShort(&i, &c, "", UNIT), Err(ShortError::InputParse));
    assert_eq!(calcOpenShort(&i, &c, BONDS, ""), Err(ShortError::InputParse));
    assert_eq!(spotPriceAfterShort(&i, &c, "", UNIT), Err(ShortError::InputParse));
    assert_eq!(spotPriceAfterShort(&i, &c, BONDS, ""), Err(ShortError::InputParse));
    assert!(calcOpenShort(&i, &c, BONDS, "0").is_ok());
}

#[test]
fn a_trade_of_nothing_keeps_the_spot_price() {
    let s = pool(UNIT);
    assert_eq!(s.spot_price_after_trade(amount("0"), amount("0")), s.calculate_spot_price());
}
