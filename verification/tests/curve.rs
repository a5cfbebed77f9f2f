use hyperdrive_short::curve::inverse_of_exponent;
use hyperdrive_short::fixed::{FixedPoint, ShortError};
use hyperdrive_short::state::{PoolConfig, PoolInfo, State};
use hyperdrive_short::wide::Wide;

fn scaled(text: &str) -> FixedPoint {
    FixedPoint::parse(text).unwrap()
}

fn curve_pool(initial_share_price: &str, share_price: &str) -> State {
    State {
        config: PoolConfig {
            time_stretch: scaled("44463125629060298"),
            curve_fee: scaled("10000000000000000"),
            flat_fee: scaled("500000000000000"),
            governance_lp_fee: scaled("150000000000000000"),
            position_duration: Wide::from_u64(604800),
            initial_vault_share_price: scaled(initial_share_price),
        },
        info: PoolInfo {
            share_reserves: scaled("100000000000000000000000"),
            bond_reserves: scaled("120000000000000000000000"),
            vault_share_price: scaled(share_price),
        },
    }
}

const PAR: &str = "1000000000000000000";

#[test]
fn curve_constant_from_its_powers() {
    let s = curve_pool(PAR, "1100000000000000000");
    let constant = s.curve_constant_of(
        scaled("50000000000000000000000"),
        scaled("70000000000000000000000"),
    );
    assert_eq!(constant, Ok(scaled("125000000000000000000000")));

    // 10 wei at 1 / 3 round up to 4 wei.
    let s = curve_pool("3000000000000000000", PAR);
    assert_eq!(s.curve_constant_of(scaled("10"), scaled("5")), Ok(scaled("9")));
}

#[test]
fn curve_constant_that_cannot_be_represented() {
    let s = curve_pool(PAR, PAR);
    let largest = Wide { l0: u64::MAX, l1: u64::MAX, l2: u64::MAX, l3: u64::MAX };
    assert_eq!(
        s.curve_constant_of(FixedPoint::from_raw(largest), scaled("0")),
        Ok(FixedPoint::from_raw(largest))
    );
    assert_eq!(
        curve_pool(PAR, "1100000000000000000")
            .curve_constant_of(FixedPoint::from_raw(largest), scaled("0")),
        Err(ShortError::ArithmeticOverflow)
    );
    assert_eq!(
        s.curve_constant_of(scaled("1"), FixedPoint::from_raw(largest)),
        Err(ShortError::ArithmeticOverflow)
    );
}

#[test]
fn share_side_left_of_the_constant() {
    let s = curve_pool(PAR, "1100000000000000000");
    let side = s.share_side_of(
        scaled("125000000000000000000000"),
        scaled("73000000000000000000000"),
    );
    assert_eq!(side, Ok(scaled("47272727272727272727273")));
    assert_eq!(s.share_side_of(scaled("5"), scaled("5")), Ok(scaled("0")));
    assert_eq!(
        s.share_side_of(scaled("5"), scaled("6")),
        Err(ShortError::CurveInfeasibleTrade)
    );
}

#[test]
fn inverse_exponent_rounds_with_the_base() {
    let exponent = scaled("300000000000000000");
    assert_eq!(inverse_of_exponent(scaled(PAR), exponent), scaled("3333333333333333334"));
    assert_eq!(
        inverse_of_exponent(scaled("2000000000000000000"), exponent),
        scaled("3333333333333333334")
    );
    assert_eq!(
        inverse_of_exponent(scaled("999999999999999999"), exponent),
        scaled("3333333333333333333")
    );
    assert_eq!(inverse_of_exponent(scaled("0"), scaled("500000000000000000")), scaled("2000000000000000000"));
}

#[test]
fn shares_paid_are_what_the_pool_holds_less_what_stays() {
    let s = curve_pool(PAR, PAR);
    assert_eq!(
        s.shares_paid_of(scaled("99000000000000000000000")),
        Ok(scaled("1000000000000000000000"))
    );
    assert_eq!(s.shares_paid_of(scaled("100000000000000000000000")), Ok(scaled("0")));
    assert_eq!(s.shares_paid_of(scaled("100000000000000000000001")), Ok(scaled("0")));

    // 10 wei at an initial price of 3 stay as 4 wei.
    let s = curve_pool("3000000000000000000", PAR);
    assert_eq!(s.shares_paid_of(scaled("10")), Ok(scaled("99999999999999999999996")));
}

#[test]
fn powers_come_from_the_exponential_of_the_logarithm() {
    let nine = scaled("9000000000000000000");
    let root = nine.pow(scaled("500000000000000000")).unwrap();
    assert!(scaled("2999999999999000000").le(root));
    assert!(root.le(scaled("3000000000001000000")));
    assert_eq!(nine.pow(scaled("0")), Ok(scaled(PAR)));
    assert_eq!(scaled("0").pow(scaled(PAR)), Ok(scaled("0")));
    let largest = Wide { l0: u64::MAX, l1: u64::MAX, l2: u64::MAX, l3: u64::MAX };
    assert_eq!(
        FixedPoint::from_raw(largest).pow(scaled(PAR)),
        Err(ShortError::ArithmeticOverflow)
    );
    assert_eq!(
        scaled("1000000000000000000000").pow(scaled("100000000000000000000")),
        Err(ShortError::ArithmeticOverflow)
    );
}
