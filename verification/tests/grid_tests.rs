use grid_strategy::data::{AlgorithmData, MarketEvent};
use grid_strategy::dec::Dec;
use grid_strategy::grid::{
    Grid, GridZone, InstrumentGridState, InstrumentSnapshot, SignalType, TmaState,
};
use grid_strategy::order::{OrderKind, Side, StrategyTag, TimeInForce};

fn dec(n: i64) -> Dec {
    Dec::from_int(n)
}

fn units(u: i128) -> Dec {
    Dec::from_units(u)
}

fn grid_with_state(state: InstrumentGridState) -> Grid {
    // 5% bands, 0.5% risk, 1% spacing, 10 levels.
    let mut grid = Grid::with_params(
        dec(50000),
        units(50_000_000),
        14,
        units(5_000_000),
        units(10_000_000),
        10,
    );
    grid.instrument_grids.insert(1, state);
    grid
}

fn base_state() -> InstrumentGridState {
    InstrumentGridState {
        current_price: dec(96),
        price_history: vec![dec(96)],
        buy_levels: vec![dec(90), dec(95)],
        sell_levels: vec![dec(200), dec(210)],
        filled_levels: Vec::new(),
        grid_spacing: dec(1),
        last_grid_zone: GridZone::BetweenBands,
        last_tma_state: TmaState::Sideways,
    }
}

#[test]
fn crossing_emits_one_buy_and_fills_the_level() {
    let mut grid = grid_with_state(base_state());

    // SMA 100 gives bands [95, 105]; previous price 96, current 94 crosses
    // the 95 buy level (and only that one).
    let signals = grid.process_instrument_signal(7, 1, Some(dec(94)), Some(dec(100)));
    assert_eq!(signals.len(), 1);
    assert_eq!(signals[0].signal_type, SignalType::Buy);
    assert_eq!(signals[0].price, dec(95));
    assert_eq!(signals[0].grid_level, Some(dec(95)));
    assert_eq!(signals[0].exchange, 7);
    assert_eq!(signals[0].instrument, 1);

    let state = grid.instrument_grids.get(&1).unwrap();
    assert!(state.filled_levels.contains(&dec(95)));
}

#[test]
fn filled_level_does_not_retrigger() {
    let mut grid = grid_with_state(base_state());

    let first = grid.process_instrument_signal(7, 1, Some(dec(94)), Some(dec(100)));
    assert_eq!(first.len(), 1);

    // Price moves back up above the level, then down through it again: the
    // filled level must not re-signal.
    let back_up = grid.process_instrument_signal(7, 1, Some(dec(96)), Some(dec(100)));
    // Zone moved BelowLowBand -> BetweenBands: the fallback buy fires, but
    // not a level crossing.
    assert_eq!(back_up.len(), 1);
    assert_eq!(back_up[0].grid_level, None);

    let down_again = grid.process_instrument_signal(7, 1, Some(dec(94)), Some(dec(100)));
    assert_eq!(down_again.len(), 0);
}

#[test]
fn zone_fallback_table() {
    let grid = Grid::new(dec(1000));
    // BelowLowBand -> BetweenBands buys regardless of trend.
    for trend in [TmaState::BullishTrend, TmaState::BearishTrend, TmaState::Sideways] {
        assert!(grid.should_generate_grid_signal(
            &GridZone::BelowLowBand,
            &GridZone::BetweenBands,
            &trend
        ));
        assert_eq!(
            grid.get_grid_signal_type(&GridZone::BelowLowBand, &GridZone::BetweenBands, &trend),
            SignalType::Buy
        );
    }
    // BetweenBands -> AboveHighBand is ignored in a sideways market.
    assert!(!grid.should_generate_grid_signal(
        &GridZone::BetweenBands,
        &GridZone::AboveHighBand,
        &TmaState::Sideways
    ));
    assert_eq!(
        grid.get_grid_signal_type(
            &GridZone::BetweenBands,
            &GridZone::AboveHighBand,
            &TmaState::Sideways
        ),
        SignalType::NoSignal
    );
    // With a bearish trend the same transition sells.
    assert_eq!(
        grid.get_grid_signal_type(
            &GridZone::BetweenBands,
            &GridZone::AboveHighBand,
            &TmaState::BearishTrend
        ),
        SignalType::Sell
    );
    // AboveHighBand -> BetweenBands sells regardless of trend.
    assert_eq!(
        grid.get_grid_signal_type(
            &GridZone::AboveHighBand,
            &GridZone::BetweenBands,
            &TmaState::BullishTrend
        ),
        SignalType::Sell
    );
}

#[test]
fn classification_helpers() {
    let grid = Grid::new(dec(1000));
    let (high, low) = grid.calculate_bands(dec(100));
    assert_eq!(high, dec(105));
    assert_eq!(low, dec(95));
    let vol = grid.calculate_volatility(high, low, dec(100));
    assert_eq!(vol, dec(10));
    assert_eq!(grid.calculate_volatility(high, low, dec(0)), dec(0));
    assert_eq!(grid.determine_grid_zone(dec(106), high, low), GridZone::AboveHighBand);
    assert_eq!(grid.determine_grid_zone(dec(94), high, low), GridZone::BelowLowBand);
    assert_eq!(grid.determine_grid_zone(dec(100), high, low), GridZone::BetweenBands);
    assert_eq!(grid.determine_tma_state(dec(101), dec(100), dec(102)), TmaState::BullishTrend);
    assert_eq!(grid.determine_tma_state(dec(99), dec(100), dec(98)), TmaState::BearishTrend);
    assert_eq!(grid.determine_tma_state(dec(101), dec(100), dec(98)), TmaState::Sideways);
    // A price exactly on the average is sideways, not bearish.
    assert_eq!(grid.determine_tma_state(dec(100), dec(100), dec(100)), TmaState::Sideways);
    assert_eq!(grid.determine_tma_state(dec(100), dec(100), dec(99)), TmaState::Sideways);
    assert_eq!(grid.determine_tma_state(dec(99), dec(100), dec(100)), TmaState::Sideways);
    assert_eq!(grid.calculate_tma(dec(42)), dec(42));
}

#[test]
fn grid_spacing_volatility_multiplier() {
    let grid = Grid::new(dec(1000));
    // 2% spacing on price 100: base 2; high volatility widens it by half.
    assert_eq!(grid.calculate_grid_spacing(dec(100), dec(6)), dec(3));
    // Low volatility tightens it by 30%.
    assert_eq!(grid.calculate_grid_spacing(dec(100), dec(1)), units(1_400_000_000));
    // Normal volatility leaves it alone.
    assert_eq!(grid.calculate_grid_spacing(dec(100), dec(3)), dec(2));
}

#[test]
fn generated_levels_are_spaced_and_positive() {
    let grid = Grid::new(dec(1000));
    // Price 10, volatility 3 (normal): spacing 0.2; ten levels each way.
    let (buys, sells) = grid.generate_grid_levels(dec(10), dec(10), dec(3));
    assert_eq!(buys.len(), 10);
    assert_eq!(sells.len(), 10);
    assert_eq!(buys[9], units(9_800_000_000));
    assert_eq!(buys[0], dec(8));
    assert_eq!(sells[0], units(10_200_000_000));
    assert_eq!(sells[9], dec(12));
}

#[test]
fn analyze_ranges_min_max_mean() {
    let grid = Grid::new(dec(1000));
    let history = vec![dec(5), dec(1), dec(9), dec(5)];
    let (min, max, avg) = grid.analyze_price_ranges(&history);
    assert_eq!(min, dec(1));
    assert_eq!(max, dec(9));
    assert_eq!(avg, dec(5));
    let empty: Vec<Dec> = Vec::new();
    assert_eq!(grid.analyze_price_ranges(&empty), (dec(0), dec(0), dec(0)));
}

#[test]
fn end_to_end_sma_grid_scenario() {
    // SMA period 5 fed [10, 11, 12, 13, 14, 15]: ready at the 5th price with
    // value 12, sliding to 13 at the 6th.
    let mut data = AlgorithmData::new_with_periods(14, 5);
    let t: i64 = 1_700_000_000_000;
    let prices = [10i64, 11, 12, 13, 14, 15];
    for (i, p) in prices.iter().enumerate() {
        let event = MarketEvent {
            time_received: t + (i as i64) * 1000,
            price: Some(dec(*p)),
            trade: None,
        };
        data.process(&event);
        if i == 3 {
            assert_eq!(data.sma.value(), None);
        }
        if i == 4 {
            assert_eq!(data.sma.value(), Some(dec(12)));
        }
    }
    assert_eq!(data.sma.value(), Some(dec(13)));
    assert_eq!(data.price(), Some(dec(15)));

    // Grid with 1% spacing and 15 levels on a $50,000 wallet at 0.5% risk.
    let mut grid = Grid::with_params(
        dec(50000),
        units(50_000_000),
        14,
        units(5_000_000),
        units(10_000_000),
        15,
    );

    // First cycle at price 15, SMA 13: volatility 10% > 5%, so spacing is
    // 15 * 1% * 1.5 = 0.225; levels are generated once, no signal fires.
    let snap1 = data.snapshot(7, 1);
    let (cancels1, orders1) = grid.generate_algo_orders(&vec![snap1]);
    assert_eq!(cancels1.len(), 0);
    assert_eq!(orders1.len(), 0);
    {
        let state = grid.instrument_grids.get(&1).unwrap();
        assert_eq!(state.buy_levels.len(), 15);
        // Nearest buy level: 15 - 0.225 = 14.775.
        assert!(state.buy_levels.contains(&units(14_775_000_000)));
    }

    // Price drops to 14.7, crossing the 14.775 buy level: one buy order at
    // the level price, sized round(wallet * risk / level, 8 dp).
    let snap2 = InstrumentSnapshot {
        exchange: 7,
        instrument: 1,
        price: Some(units(14_700_000_000)),
        sma: Some(units(13_740_000_000)),
    };
    let (cancels2, orders2) = grid.generate_algo_orders(&vec![snap2]);
    assert_eq!(cancels2.len(), 0);
    assert_eq!(orders2.len(), 1);
    let order = &orders2[0];
    assert_eq!(order.side, Side::Buy);
    assert_eq!(order.kind, OrderKind::Limit);
    assert_eq!(order.time_in_force, TimeInForce::GoodUntilEndOfDay);
    assert_eq!(order.strategy, StrategyTag::Grid);
    assert_eq!(order.price, units(14_775_000_000));
    let expected_quantity = dec(250).div(units(14_775_000_000)).round_dp8();
    assert_eq!(order.quantity, expected_quantity);
}
