use algotrade_core::bus::{AppEvent, EventDispatcher, RecvOutcome};
use algotrade_core::models::{Exchange, StandardTick};
use algotrade_core::state::AppState;

fn tick(symbol: &str, price: i64) -> StandardTick {
    StandardTick {
        symbol: symbol.to_string(),
        price,
        volume: 0,
        timestamp: 1_700_000_000_000,
        exchange: Exchange::Bybit,
    }
}

fn event_price(out: RecvOutcome) -> i64 {
    match out {
        RecvOutcome::Event(AppEvent::PriceUpdated(t)) => t.price,
        _ => panic!("expected a price event"),
    }
}

#[test]
fn every_subscriber_gets_each_event_once_in_order() {
    let mut bus = EventDispatcher::new(16);
    let mut rx1 = bus.subscribe();
    let mut rx2 = bus.subscribe();

    assert_eq!(bus.publish(AppEvent::PriceUpdated(tick("BTCUSDT", 1))).unwrap(), 2);
    assert_eq!(bus.publish(AppEvent::PriceUpdated(tick("BTCUSDT", 2))).unwrap(), 2);

    // Both subscribers see both events, in publish order, exactly once.
    assert_eq!(event_price(bus.recv(&mut rx1)), 1);
    assert_eq!(event_price(bus.recv(&mut rx1)), 2);
    assert!(matches!(bus.recv(&mut rx1), RecvOutcome::Empty));

    assert_eq!(event_price(bus.recv(&mut rx2)), 1);
    assert_eq!(event_price(bus.recv(&mut rx2)), 2);
    assert!(matches!(bus.recv(&mut rx2), RecvOutcome::Empty));
}

#[test]
fn no_subscriber_means_publish_fails() {
    let mut bus = EventDispatcher::new(4);
    let result = bus.publish(AppEvent::PositionOpened { position_id: "p1".to_string() });
    assert!(result.is_err());
}

#[test]
fn subscriber_sees_nothing_published_before_it() {
    let mut bus = EventDispatcher::new(8);
    let mut early = bus.subscribe();
    bus.publish(AppEvent::PriceUpdated(tick("ETHUSDT", 7))).unwrap();
    let mut late = bus.subscribe();
    assert_eq!(event_price(bus.recv(&mut early)), 7);
    assert!(matches!(bus.recv(&mut late), RecvOutcome::Empty));
}

#[test]
fn lagging_subscriber_drops_oldest_and_learns_how_many() {
    let mut bus = EventDispatcher::new(2);
    let mut rx = bus.subscribe();
    for p in 1..=5 {
        bus.publish(AppEvent::PriceUpdated(tick("BTCUSDT", p))).unwrap();
    }
    // Capacity 2: events 1..=3 were dropped; the reader is told, then
    // resumes with the oldest still buffered. The publisher never blocked.
    match bus.recv(&mut rx) {
        RecvOutcome::Lagged(n) => assert_eq!(n, 3),
        _ => panic!("expected a lag report"),
    }
    assert_eq!(event_price(bus.recv(&mut rx)), 4);
    assert_eq!(event_price(bus.recv(&mut rx)), 5);
    assert!(matches!(bus.recv(&mut rx), RecvOutcome::Empty));
    assert_eq!(bus.total_published(), 5);
}

#[test]
fn update_price_then_get_price_returns_the_written_tick() {
    let mut state = AppState::new();
    state.update_price(tick("BTCUSDT", 42_000_00000000));
    let got = state.get_price("BTCUSDT").expect("price was just written");
    assert_eq!(got.price, 42_000_00000000);
    assert_eq!(got.symbol, "BTCUSDT");

    // Last write wins.
    state.update_price(tick("BTCUSDT", 43_000_00000000));
    assert_eq!(state.get_price("BTCUSDT").unwrap().price, 43_000_00000000);

    assert!(state.get_price("ETHUSDT").is_none());
}

#[test]
fn price_write_is_visible_before_the_event() {
    let mut state = AppState::new();
    let mut rx = state.dispatcher.subscribe();
    state.update_price(tick("BTCUSDT", 5));
    // The event arrives after the map write, so a reader woken by it
    // already sees the new price.
    match state.dispatcher.recv(&mut rx) {
        RecvOutcome::Event(AppEvent::PriceUpdated(t)) => {
            assert_eq!(state.get_price("BTCUSDT").unwrap().price, t.price);
        }
        _ => panic!("expected the price event"),
    }
}

#[test]
fn module_flags_are_upserted_and_default_inactive() {
    let mut state = AppState::new();
    assert!(!state.is_module_active("stop_loss"));
    state.set_module_active("stop_loss", true);
    assert!(state.is_module_active("stop_loss"));
    state.set_module_active("stop_loss", false);
    assert!(!state.is_module_active("stop_loss"));
}
