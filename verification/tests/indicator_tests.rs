use grid_strategy::dec::Dec;
use grid_strategy::rsi::RSI;
use grid_strategy::sma::SMA;
use grid_strategy::vwap::VwapIndicator;

fn dec(n: i64) -> Dec {
    Dec::from_int(n)
}

#[test]
fn test_vwap_calculation() {
    let mut vwap = VwapIndicator::new(3600 * 1000);
    let now: i64 = 1_700_000_000_000;

    vwap.update(dec(100), dec(10), now);
    vwap.update(dec(102), dec(20), now);
    vwap.update(dec(98), dec(30), now);

    // VWAP = (100*10 + 102*20 + 98*30) / (10+20+30) = 5980 / 60
    let expected_vwap = dec(5980).div(dec(60));
    assert_eq!(vwap.value(), Some(expected_vwap));
    assert_eq!(vwap.total_volume(), dec(60));
    assert_eq!(vwap.trade_count(), 3);
}

#[test]
fn test_vwap_reset() {
    let mut vwap = VwapIndicator::new(1000);
    let now: i64 = 1_700_000_000_000;

    vwap.update(dec(100), dec(10), now);
    assert!(vwap.value().is_some());

    let later = now + 2000;
    vwap.update(dec(200), dec(5), later);

    assert_eq!(vwap.value(), Some(dec(200)));
    assert_eq!(vwap.total_volume(), dec(5));
    assert_eq!(vwap.trade_count(), 1);
}

#[test]
fn vwap_undefined_before_first_trade() {
    let vwap = VwapIndicator::daily();
    assert_eq!(vwap.value(), None);
    assert_eq!(vwap.trade_count(), 0);
}

#[test]
fn sma_undefined_below_period_then_exact_mean() {
    let mut sma = SMA::new(3);
    sma.update(dec(1));
    assert_eq!(sma.value(), None);
    assert!(!sma.is_ready());
    sma.update(dec(2));
    assert_eq!(sma.value(), None);
    sma.update(dec(3));
    assert!(sma.is_ready());
    assert_eq!(sma.value(), Some(dec(2)));
}

#[test]
fn sma_slides_window() {
    let mut sma = SMA::new(3);
    for p in [1i64, 2, 3, 4] {
        sma.update(dec(p));
    }
    // Window is now [2, 3, 4].
    assert_eq!(sma.value(), Some(dec(3)));
    sma.update(dec(10));
    // Window is now [3, 4, 10].
    assert_eq!(sma.value(), Some(dec(17).div(dec(3))));
}

#[test]
fn sma_reset_clears_state() {
    let mut sma = SMA::new(2);
    sma.update(dec(5));
    sma.update(dec(7));
    assert!(sma.value().is_some());
    sma.reset();
    assert_eq!(sma.value(), None);
    assert!(!sma.is_ready());
}

#[test]
fn rsi_all_gains_is_exactly_100() {
    let mut rsi = RSI::new(2);
    let t: i64 = 1_700_000_000_000;
    rsi.update_with_time(dec(10), t);
    rsi.update_with_time(dec(11), t + 1000);
    rsi.update_with_time(dec(12), t + 2000);
    assert_eq!(rsi.value(), Some(dec(100)));
}

#[test]
fn rsi_duplicate_prices_change_nothing() {
    let mut rsi = RSI::new(2);
    let t: i64 = 1_700_000_000_000;
    rsi.update_with_time(dec(10), t);
    rsi.update_with_time(dec(11), t + 1000);
    rsi.update_with_time(dec(12), t + 2000);
    let before = rsi.value();
    rsi.update_with_time(dec(12), t + 3000);
    rsi.update_with_time(dec(12), t + 4000);
    assert_eq!(rsi.value(), before);
}

#[test]
fn rsi_balanced_moves_give_50() {
    let mut rsi = RSI::new(2);
    let t: i64 = 1_700_000_000_000;
    rsi.update_with_time(dec(10), t);
    rsi.update_with_time(dec(11), t + 1000);
    rsi.update_with_time(dec(10), t + 2000);
    // One gain of 1 and one loss of 1: the index sits exactly in the middle.
    assert_eq!(rsi.value(), Some(dec(50)));
}

#[test]
fn rsi_value_always_within_bounds() {
    let mut rsi = RSI::new(2);
    let t: i64 = 1_700_000_000_000;
    let prices = [100i64, 90, 95, 60, 160, 40, 41, 39];
    for (i, p) in prices.iter().enumerate() {
        rsi.update_with_time(dec(*p), t + (i as i64) * 500);
        if let Some(v) = rsi.value() {
            assert!(Dec::from_int(0).le(v) && v.le(dec(100)));
        }
    }
}

#[test]
fn rsi_undefined_before_period() {
    let mut rsi = RSI::new(3);
    let t: i64 = 1_700_000_000_000;
    rsi.update_with_time(dec(10), t);
    rsi.update_with_time(dec(11), t + 1000);
    assert_eq!(rsi.value(), None);
}

#[test]
fn rsi_window_prunes_old_entries() {
    let mut rsi = RSI::new(1);
    let t: i64 = 1_700_000_000_000;
    rsi.update_with_time(dec(10), t);
    rsi.update_with_time(dec(9), t + 1000);
    // A loss is in the window: the index is at the bottom.
    assert_eq!(rsi.value(), Some(dec(0)));
    // 200 s later (past the 180 s window) a gain arrives; the loss entry is
    // pruned, leaving only gains.
    rsi.update_with_time(dec(11), t + 201_000);
    assert_eq!(rsi.value(), Some(dec(100)));
}

#[test]
fn vwap_two_update_formula() {
    let mut vwap = VwapIndicator::new(86_400_000);
    let t: i64 = 1_700_000_000_000;
    vwap.update(dec(3), dec(7), t);
    vwap.update(dec(5), dec(9), t + 1);
    let expected = dec(3).mul(dec(7)).add(dec(5).mul(dec(9))).div(dec(7).add(dec(9)));
    assert_eq!(vwap.value(), Some(expected));
}

#[test]
fn dec_arithmetic_basics() {
    assert_eq!(dec(6).mul(dec(7)), dec(42));
    assert_eq!(dec(1).div(dec(3)), Dec::from_units(333_333_333));
    assert_eq!(dec(-1).div(dec(3)), Dec::from_units(-333_333_333));
    assert_eq!(Dec::from_units(14).round_dp8(), Dec::from_units(10));
    assert_eq!(Dec::from_units(16).round_dp8(), Dec::from_units(20));
    // Midpoints round to the even eighth-place digit, as the engine's
    // decimals do.
    assert_eq!(Dec::from_units(15).round_dp8(), Dec::from_units(20));
    assert_eq!(Dec::from_units(25).round_dp8(), Dec::from_units(20));
    assert_eq!(Dec::from_units(35).round_dp8(), Dec::from_units(40));
    assert_eq!(Dec::from_units(-25).round_dp8(), Dec::from_units(-20));
    assert_eq!(Dec::from_units(-15).round_dp8(), Dec::from_units(-20));
    assert_eq!(dec(-5).abs(), dec(5));
}

#[test]
fn sampled_rsi_throttles_updates() {
    let mut rsi = grid_strategy::rsi_sampled::RSI::new(2);
    let t: i64 = 1_700_000_000_000;
    rsi.update_with_time(dec(10), t);
    // Within the five-second sample interval: ignored entirely.
    rsi.update_with_time(dec(11), t + 1000);
    assert_eq!(rsi.value(), None);
    rsi.update_with_time(dec(11), t + 5000);
    rsi.update_with_time(dec(12), t + 10_000);
    // Two gains recorded: the index pegs at 100.
    assert_eq!(rsi.value(), Some(dec(100)));
}

#[test]
fn sampled_rsi_balanced_window() {
    let mut rsi = grid_strategy::rsi_sampled::RSI::new(2);
    rsi.set_sample_interval(0);
    let t: i64 = 1_700_000_000_000;
    rsi.update_with_time(dec(10), t);
    rsi.update_with_time(dec(12), t + 1);
    rsi.update_with_time(dec(10), t + 2);
    // One gain of 2 and one loss of 2: the index sits exactly in the middle.
    assert_eq!(rsi.value(), Some(dec(50)));
    // The window keeps only the last two changes: two more losses push it
    // to the bottom.
    rsi.update_with_time(dec(8), t + 3);
    rsi.update_with_time(dec(6), t + 4);
    assert_eq!(rsi.value(), Some(dec(0)));
}
