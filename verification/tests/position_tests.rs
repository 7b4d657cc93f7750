use grid_strategy::dec::Dec;
use grid_strategy::position::PositionSizer;

fn dec(n: i64) -> Dec {
    Dec::from_int(n)
}

#[test]
fn test_position_sizer_calculation() {
    let sizer = PositionSizer::new(dec(50000));

    let btc_price = dec(50000);
    let btc_quantity = sizer.calculate_quantity(btc_price);
    let expected_btc = dec(250).div(btc_price);
    assert_eq!(btc_quantity, expected_btc);

    let eth_price = dec(2500);
    let eth_quantity = sizer.calculate_quantity(eth_price);
    let expected_eth = dec(250).div(eth_price);
    assert_eq!(eth_quantity, expected_eth);

    let position_value = sizer.calculate_position_value(btc_price);
    assert_eq!(position_value, dec(250));
}

#[test]
fn test_custom_risk_percentage() {
    let sizer = PositionSizer::with_risk(dec(100000), Dec::from_units(10_000_000));

    let price = dec(1000);
    let quantity = sizer.calculate_quantity(price);
    let expected = dec(1000).div(price);
    assert_eq!(quantity, expected);
}

#[test]
fn test_zero_price() {
    let sizer = PositionSizer::new(dec(50000));
    let quantity = sizer.calculate_quantity(dec(0));
    assert_eq!(quantity, dec(0));
}

#[test]
fn test_update_methods() {
    let mut sizer = PositionSizer::new(dec(50000));

    sizer.update_wallet_size(dec(100000));
    assert_eq!(sizer.wallet_size(), dec(100000));

    sizer.update_risk_percentage(Dec::from_units(10_000_000));
    assert_eq!(sizer.risk_percentage(), Dec::from_units(10_000_000));

    let quantity = sizer.calculate_quantity(dec(1000));
    let expected = dec(1000).div(dec(1000));
    assert_eq!(quantity, expected);
}

#[test]
fn quantity_times_price_is_position_value() {
    // An inexact division: the rounded quantity times the price must equal
    // exactly what calculate_position_value reports.
    let sizer = PositionSizer::new(dec(50000));
    let price = dec(3);
    let quantity = sizer.calculate_quantity(price);
    assert_eq!(quantity, dec(250).div(price).round_dp8());
    assert_eq!(sizer.calculate_position_value(price), quantity.mul(price));
}

#[test]
fn risk_amount_is_wallet_times_risk() {
    let sizer = PositionSizer::with_risk(dec(2000), Dec::from_units(10_000_000));
    assert_eq!(sizer.risk_amount(), dec(20));
}

#[test]
fn default_sizer_wallet() {
    let sizer = PositionSizer::default();
    assert_eq!(sizer.wallet_size(), dec(50000));
    assert_eq!(sizer.risk_percentage(), Dec::from_units(5_000_000));
}

#[test]
fn negative_price_sized_to_zero() {
    let sizer = PositionSizer::new(dec(50000));
    assert_eq!(sizer.calculate_quantity(dec(-5)), dec(0));
}
