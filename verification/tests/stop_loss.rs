use algotrade_core::models::{Exchange, Position, PositionSide, StandardTick};
use algotrade_core::module::{ModuleError, ModuleSignal, TradingModule};
use algotrade_core::stop_loss::StopLossModule;

// Prices in these tests are fixed-point with two decimals (100 = 1.00),
// which the scale-free comparisons of the module accept.
fn position(side: PositionSide, entry: i64, stop: Option<i64>) -> Position {
    Position {
        id: "p1".to_string(),
        symbol: "BTCUSDT".to_string(),
        side,
        entry_price: entry,
        quantity: 100,
        stop_loss: stop,
        take_profit: None,
        created_at: 0,
    }
}

fn tick(price: i64) -> StandardTick {
    StandardTick {
        symbol: "BTCUSDT".to_string(),
        price,
        volume: 0,
        timestamp: 0,
        exchange: Exchange::Bybit,
    }
}

fn active_module() -> StopLossModule {
    let mut m = StopLossModule::new();
    m.initialize().unwrap();
    m.set_active(true);
    m
}

#[test]
fn breakeven_long_fires_at_threshold_not_below() {
    let m = active_module();
    // entry 100.00, stop 95.00, threshold 1R: boundary at 105.00.
    let p = position(PositionSide::Long, 100_00, Some(95_00));
    assert!(m.check_breakeven(&p, 105_00));
    assert!(m.check_breakeven(&p, 105_01));
    assert!(!m.check_breakeven(&p, 104_99));
}

#[test]
fn breakeven_short_fires_at_threshold_not_above() {
    let m = active_module();
    // entry 100.00, stop 105.00, threshold 1R: boundary at 95.00.
    let p = position(PositionSide::Short, 100_00, Some(105_00));
    assert!(m.check_breakeven(&p, 95_00));
    assert!(m.check_breakeven(&p, 94_99));
    assert!(!m.check_breakeven(&p, 95_01));
}

#[test]
fn breakeven_without_stop_uses_entry_and_fires_at_entry() {
    let m = active_module();
    // Without a stop the risk is zero, so the threshold is met at entry.
    let p = position(PositionSide::Long, 100_00, None);
    assert!(m.check_breakeven(&p, 100_00));
    assert!(!m.check_breakeven(&p, 99_99));
}

#[test]
fn tick_raises_breakeven_and_stop_signals() {
    let mut m = active_module();
    let positions = vec![
        position(PositionSide::Long, 100_00, Some(95_00)),
        Position { id: "p2".to_string(), ..position(PositionSide::Long, 200_00, Some(100_00)) },
        Position { symbol: "ETHUSDT".to_string(), ..position(PositionSide::Long, 1_00, Some(0_50)) },
    ];
    // 105.00 reaches p1's breakeven; it is below neither stop; the
    // other-symbol position is not evaluated.
    let signals = m.on_price_tick(&tick(105_00), &positions).unwrap();
    assert_eq!(signals.len(), 1);
    assert!(matches!(&signals[0], ModuleSignal::BreakevenReached { position_id } if position_id == "p1"));

    // 94.00 crosses p1's stop (and p2's), but reaches no breakeven.
    let signals = m.on_price_tick(&tick(94_00), &positions).unwrap();
    assert_eq!(signals.len(), 2);
    assert!(matches!(&signals[0], ModuleSignal::StopLossHit { position_id } if position_id == "p1"));
    assert!(matches!(&signals[1], ModuleSignal::StopLossHit { position_id } if position_id == "p2"));
}

#[test]
fn inactive_module_is_called_but_does_nothing() {
    let mut m = StopLossModule::new();
    m.initialize().unwrap();
    assert!(!m.is_active());
    let positions = vec![position(PositionSide::Long, 100_00, Some(95_00))];
    // The price would trigger both conditions, yet the inactive module
    // raises nothing.
    let signals = m.on_price_tick(&tick(94_00), &positions).unwrap();
    assert!(signals.is_empty());
}

#[test]
fn uninitialized_active_module_reports_initialization_failure() {
    let mut m = StopLossModule::new();
    m.set_active(true);
    let positions = vec![position(PositionSide::Long, 100_00, Some(95_00))];
    let result = m.on_price_tick(&tick(94_00), &positions);
    assert!(matches!(result, Err(ModuleError::InitializationFailed(_))));
}

#[test]
fn lifecycle_and_capabilities() {
    let mut m = StopLossModule::new();
    assert_eq!(m.id(), "stop_loss");
    assert_eq!(m.name(), "Smart Stop-Loss");
    assert!(m.can_execute_orders());
    assert!(!m.is_active());
    m.set_active(true);
    assert!(m.is_active());
    m.initialize().unwrap();
    m.shutdown().unwrap();
    // Other callbacks are accepted and raise nothing.
    m.initialize().unwrap();
    assert!(m.on_balance_change("BTCUSDT", 1).unwrap().is_empty());
    let p = position(PositionSide::Long, 1, None);
    assert!(m.on_position_opened(&p).unwrap().is_empty());
    assert!(m.on_position_closed(&p, -5).unwrap().is_empty());
}
