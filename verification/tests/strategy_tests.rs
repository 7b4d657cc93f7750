use grid_strategy::config::{extract_usdt_wallet_size, Balance};
use grid_strategy::dec::Dec;
use grid_strategy::multi::{
    CloseSnapshot, MarketTrend, MultiStrategy, MultiStrategyCustomInstrumentData, Position,
    StrategyA, StrategyB,
};
use grid_strategy::order::{OrderKind, Side, StrategyTag, TimeInForce};
use grid_strategy::sma_above::{SmaInstrumentData, SmaStrategyInstrumentState};
use grid_strategy::sma_trend::{SmaStrategy, SmaTrendSnapshot};
use grid_strategy::vwap_strategy::{
    RsiState, SignalSource, SignalType, Vwap, VwapSnapshot, VwapState,
};

fn dec(n: i64) -> Dec {
    Dec::from_int(n)
}

fn units(u: i128) -> Dec {
    Dec::from_units(u)
}

#[test]
fn rsi_and_vwap_classification() {
    assert_eq!(Vwap::determine_rsi_state(dec(85)), RsiState::Overbought);
    assert_eq!(Vwap::determine_rsi_state(dec(15)), RsiState::Oversold);
    assert_eq!(Vwap::determine_rsi_state(dec(50)), RsiState::Neutral);

    // Within 0.1% of the average counts as at the average.
    assert_eq!(Vwap::determine_vwap_state(units(100_050_000_000), dec(100)), VwapState::AtVwap);
    assert_eq!(Vwap::determine_vwap_state(dec(102), dec(100)), VwapState::AboveVwap);
    assert_eq!(Vwap::determine_vwap_state(dec(98), dec(100)), VwapState::BelowVwap);
}

#[test]
fn entering_overbought_sells() {
    let mut vwap = Vwap::new(dec(50000));
    // First cycle: price well above the average, index overbought; the
    // previous index state defaults to neutral, so an index sell fires.
    let signal = vwap
        .process_instrument_signal(7, 1, Some(dec(102)), Some(dec(100)), Some(dec(85)))
        .unwrap();
    assert_eq!(signal.signal_type, SignalType::Sell);
    assert_eq!(signal.previous_rsi, dec(50));
    assert_eq!(signal.rsi, dec(85));

    // Second cycle with the same readings: still overbought, no transition,
    // no crossing; nothing fires.
    let second = vwap.process_instrument_signal(7, 1, Some(dec(102)), Some(dec(100)), Some(dec(85)));
    assert!(second.is_none());
}

#[test]
fn agreeing_signals_are_combined() {
    let mut vwap = Vwap::new(dec(50000));
    // Establish states: price at the average, index neutral.
    let first = vwap.process_instrument_signal(7, 1, Some(dec(100)), Some(dec(100)), Some(dec(50)));
    assert!(first.is_none());
    // Price crosses above the average (a buy crossing) while the index
    // turns overbought (a sell): they disagree and the index signal wins.
    let second = vwap
        .process_instrument_signal(7, 1, Some(dec(102)), Some(dec(100)), Some(dec(85)))
        .unwrap();
    assert_eq!(second.signal_type, SignalType::Sell);
    assert_eq!(second.signal_source, SignalSource::Rsi);
    // On a fresh instrument: the price crosses above while the index turns
    // oversold: both say buy, so the signal is combined.
    let third = vwap.process_instrument_signal(7, 2, Some(dec(100)), Some(dec(100)), Some(dec(50)));
    assert!(third.is_none());
    let fourth = vwap
        .process_instrument_signal(7, 2, Some(dec(102)), Some(dec(100)), Some(dec(15)))
        .unwrap();
    assert_eq!(fourth.signal_type, SignalType::Buy);
    assert_eq!(fourth.signal_source, SignalSource::Combined);
}

#[test]
fn vwap_orders_from_snapshots() {
    let mut vwap = Vwap::with_risk(dec(50000), units(5_000_000));
    let snaps = vec![
        VwapSnapshot {
            exchange: 7,
            instrument: 1,
            price: Some(dec(98)),
            vwap: Some(dec(100)),
            rsi: Some(dec(15)),
        },
        VwapSnapshot { exchange: 7, instrument: 2, price: None, vwap: None, rsi: None },
    ];
    let (cancels, orders) = vwap.generate_algo_orders(&snaps);
    assert_eq!(cancels.len(), 0);
    // Oversold from neutral: one buy order, sized at 0.5% of the wallet.
    assert_eq!(orders.len(), 1);
    assert_eq!(orders[0].side, Side::Buy);
    assert_eq!(orders[0].strategy, StrategyTag::Vwap);
    assert_eq!(orders[0].price, dec(98));
    assert_eq!(orders[0].quantity, dec(250).div(dec(98)).round_dp8());
    assert_eq!(orders[0].kind, OrderKind::Limit);
    assert_eq!(orders[0].time_in_force, TimeInForce::GoodUntilEndOfDay);
}

#[test]
fn shared_calculations_track_averages_and_trend() {
    let mut data = MultiStrategyCustomInstrumentData::init(0);
    for p in 1..=19i64 {
        data.update_shared_calculations(dec(p));
    }
    assert_eq!(data.shared_indicators.moving_average_20, None);
    data.update_shared_calculations(dec(20));
    // Mean of 1..=20 is 10.5.
    assert_eq!(data.shared_indicators.moving_average_20, Some(units(10_500_000_000)));
    assert_eq!(data.shared_indicators.moving_average_50, None);
    assert_eq!(data.shared_metrics.market_trend, MarketTrend::Neutral);
    for p in 21..=50i64 {
        data.update_shared_calculations(dec(p));
    }
    // History now holds 1..=50: the long average is 25.5, the short one
    // (31..=50) is 40.5, so the trend is bullish.
    assert_eq!(data.shared_indicators.moving_average_50, Some(units(25_500_000_000)));
    assert_eq!(data.shared_indicators.moving_average_20, Some(units(40_500_000_000)));
    assert_eq!(data.shared_metrics.market_trend, MarketTrend::Bullish);
}

#[test]
fn close_positions_builds_opposite_market_orders() {
    let multi = MultiStrategy { strategy_a: StrategyA, strategy_b: StrategyB };
    let snaps = vec![
        CloseSnapshot {
            exchange: 7,
            instrument: 1,
            price: Some(dec(100)),
            position_a: Some(Position { side: Side::Buy, quantity_abs: dec(2) }),
            position_b: Some(Position { side: Side::Sell, quantity_abs: dec(3) }),
        },
        CloseSnapshot {
            exchange: 7,
            instrument: 2,
            price: None,
            position_a: Some(Position { side: Side::Buy, quantity_abs: dec(1) }),
            position_b: None,
        },
    ];
    let (cancels, opens) = multi.close_positions_requests(&snaps);
    assert_eq!(cancels.len(), 0);
    // The priceless instrument contributes nothing.
    assert_eq!(opens.len(), 2);
    assert_eq!(opens[0].strategy, StrategyTag::StrategyA);
    assert_eq!(opens[0].side, Side::Sell);
    assert_eq!(opens[0].quantity, dec(2));
    assert_eq!(opens[0].kind, OrderKind::Market);
    assert_eq!(opens[0].time_in_force, TimeInForce::ImmediateOrCancel);
    assert_eq!(opens[1].strategy, StrategyTag::StrategyB);
    assert_eq!(opens[1].side, Side::Buy);
    assert_eq!(opens[1].quantity, dec(3));
}

#[test]
fn record_strategy_position_dispatches() {
    let mut data = MultiStrategyCustomInstrumentData::init(0);
    let pos = Position { side: Side::Buy, quantity_abs: dec(1) };
    data.record_strategy_position(StrategyTag::StrategyA, Some(pos));
    assert!(data.strategy_a.position.is_some());
    assert!(data.strategy_b.position.is_none());
    data.record_strategy_position(StrategyTag::StrategyB, Some(pos));
    assert!(data.strategy_b.position.is_some());
    data.record_strategy_position(StrategyTag::Grid, None);
    assert!(data.strategy_a.position.is_some());
    assert!(data.strategy_b.position.is_some());
}

#[test]
fn multi_strategies_emit_no_orders() {
    let multi = MultiStrategy { strategy_a: StrategyA, strategy_b: StrategyB };
    let (cancels, opens) = multi.generate_algo_orders();
    assert_eq!(cancels.len(), 0);
    assert_eq!(opens.len(), 0);
    let (ca, oa) = StrategyA.generate_algo_orders();
    assert!(ca.is_empty() && oa.is_empty());
    let (cb, ob) = StrategyB.generate_algo_orders();
    assert!(cb.is_empty() && ob.is_empty());
}

#[test]
fn sma_instrument_data_window() {
    let mut window = SmaInstrumentData::new();
    assert_eq!(window.last_close(), None);
    assert_eq!(window.sma(), None);
    for p in [10i64, 11, 12, 13, 14] {
        window.update(dec(p));
    }
    assert_eq!(window.sma(), Some(dec(12)));
    assert_eq!(window.last_close(), Some(dec(14)));
    window.update(dec(20));
    // Window slid to [11, 12, 13, 14, 20].
    assert_eq!(window.sma(), Some(dec(14)));
    let state = SmaStrategyInstrumentState { instrument: window };
    assert_eq!(state.price(), Some(dec(20)));
}

#[test]
fn trend_strategy_buys_above_average() {
    let strategy = SmaStrategy::new();
    let snaps = vec![
        // Last close 5 above the mean 3: buys.
        SmaTrendSnapshot {
            exchange: 7,
            instrument: 1,
            closes: vec![dec(1), dec(2), dec(3), dec(4), dec(5)],
            has_position: false,
        },
        // Open position: skipped.
        SmaTrendSnapshot {
            exchange: 7,
            instrument: 2,
            closes: vec![dec(1), dec(2), dec(3), dec(4), dec(5)],
            has_position: true,
        },
        // Too few closes: skipped.
        SmaTrendSnapshot {
            exchange: 7,
            instrument: 3,
            closes: vec![dec(1), dec(9)],
            has_position: false,
        },
        // Last close below the mean: skipped.
        SmaTrendSnapshot {
            exchange: 7,
            instrument: 4,
            closes: vec![dec(9), dec(8), dec(7), dec(6), dec(5)],
            has_position: false,
        },
    ];
    let (cancels, opens) = strategy.generate_algo_orders(&snaps);
    assert_eq!(cancels.len(), 0);
    assert_eq!(opens.len(), 1);
    assert_eq!(opens[0].instrument, 1);
    assert_eq!(opens[0].side, Side::Buy);
    assert_eq!(opens[0].quantity, units(10_000_000));
    assert_eq!(opens[0].kind, OrderKind::Market);
    assert_eq!(opens[0].strategy, StrategyTag::SmaTrend);
}

#[test]
fn usdt_wallet_extraction() {
    let balances = vec![
        Balance { asset: b"btc".to_vec(), total: dec(3) },
        Balance { asset: b"USDT".to_vec(), total: dec(1234) },
        Balance { asset: b"usdt".to_vec(), total: dec(9999) },
    ];
    // The first match wins, case-insensitively.
    assert_eq!(extract_usdt_wallet_size(&balances), dec(1234));

    let none = vec![Balance { asset: b"eth".to_vec(), total: dec(5) }];
    assert_eq!(extract_usdt_wallet_size(&none), dec(10000));
    assert_eq!(extract_usdt_wallet_size(&Vec::new()), dec(10000));
}
