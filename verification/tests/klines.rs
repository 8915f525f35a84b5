use algotrade_core::klines::{
    assemble_klines, clean_klines, interval_millis, plan_windows, resolve_time_range,
    DEFAULT_START_MS,
};
use algotrade_core::models::Kline;

fn candle(ts: i64, close: i64) -> Kline {
    Kline { timestamp: ts, open: close, high: close, low: close, close, volume: 1 }
}

#[test]
fn interval_table_is_exact() {
    assert_eq!(interval_millis("1"), 60_000);
    assert_eq!(interval_millis("3"), 180_000);
    assert_eq!(interval_millis("5"), 300_000);
    assert_eq!(interval_millis("15"), 900_000);
    assert_eq!(interval_millis("30"), 1_800_000);
    assert_eq!(interval_millis("60"), 3_600_000);
    assert_eq!(interval_millis("120"), 7_200_000);
    assert_eq!(interval_millis("240"), 14_400_000);
    assert_eq!(interval_millis("360"), 21_600_000);
    assert_eq!(interval_millis("720"), 43_200_000);
    assert_eq!(interval_millis("D"), 86_400_000);
    assert_eq!(interval_millis("d"), 86_400_000);
    assert_eq!(interval_millis("W"), 604_800_000);
    assert_eq!(interval_millis("M"), 2_592_000_000);
    // Unknown intervals default to fifteen minutes.
    assert_eq!(interval_millis("xyz"), 900_000);
}

#[test]
fn time_range_defaults() {
    let (start, end) = resolve_time_range(None, Some(1_700_000_000_000));
    assert_eq!(start, DEFAULT_START_MS);
    assert_eq!(end, 1_700_000_000_000);
    let (start, end) = resolve_time_range(Some(5), Some(6));
    assert_eq!((start, end), (5, 6));
}

#[test]
fn plan_walks_backward_and_reaches_start() {
    // 2500 one-minute candles: three windows of 1000.
    let interval = 60_000i64;
    let end = 1_700_000_000_000i64;
    let start = end - 2_500 * interval;
    let batch = interval * 1000;
    let plan = plan_windows(start, end, interval);
    assert_eq!(plan.len(), 3);
    assert_eq!(plan[0], (end - batch, end));
    assert_eq!(plan[1], (end - batch - 1 - batch, end - batch - 1));
    // The last window is clamped at the requested start.
    assert_eq!(plan[2].0, start);
    assert!(plan[2].0 - 1 <= start);
}

#[test]
fn plan_is_capped_at_twenty_windows() {
    let interval = 60_000i64;
    let end = 1_700_000_000_000i64;
    // A year of minute candles would need far more than 20 windows.
    let start = end - 525_600 * interval;
    let plan = plan_windows(start, end, interval);
    assert_eq!(plan.len(), 20);
    // Twenty windows of 1000 candles: the 20,000-candle ceiling.
}

#[test]
fn plan_of_empty_range_is_empty() {
    assert!(plan_windows(10, 10, 60_000).is_empty());
    assert!(plan_windows(20, 10, 60_000).is_empty());
}

#[test]
fn clean_sorts_dedups_and_filters() {
    let raw = vec![
        candle(30, 3),
        candle(10, 1),
        candle(20, 2),
        candle(10, 9), // duplicate timestamp: the first one seen wins
        candle(5, 5),  // below the explicit start: dropped
    ];
    let cleaned = clean_klines(&raw, Some(10));
    let ts: Vec<i64> = cleaned.iter().map(|k| k.timestamp).collect();
    assert_eq!(ts, vec![10, 20, 30]);
    assert_eq!(cleaned[0].close, 1);
}

#[test]
fn clean_of_clean_series_is_identity() {
    let series = vec![candle(10, 1), candle(20, 2), candle(30, 3)];
    let once = clean_klines(&series, Some(10));
    assert_eq!(once, series);
    let twice = clean_klines(&once, Some(10));
    assert_eq!(twice, once);
}

#[test]
fn assemble_merges_overlapping_windows() {
    let windows = vec![
        vec![candle(40, 4), candle(30, 3)],
        vec![candle(30, 7), candle(20, 2)],
        vec![candle(10, 1)],
    ];
    let merged = assemble_klines(&windows, Some(15));
    let ts: Vec<i64> = merged.iter().map(|k| k.timestamp).collect();
    assert_eq!(ts, vec![20, 30, 40]);
    // Strictly increasing and unique by construction.
    for pair in ts.windows(2) {
        assert!(pair[0] < pair[1]);
    }
}

#[test]
fn assemble_never_exceeds_twenty_thousand() {
    // 21 windows of 1001 distinct-timestamp candles each: only 20
    // windows and 1000 candles per window may enter.
    let mut windows = Vec::new();
    for w in 0..21i64 {
        let mut win = Vec::new();
        for t in 0..1001i64 {
            win.push(candle(w * 10_000 + t, 1));
        }
        windows.push(win);
    }
    let merged = assemble_klines(&windows, None);
    assert!(merged.len() <= 20_000);
    assert_eq!(merged.len(), 20_000);
}

#[test]
fn assemble_respects_explicit_start() {
    let windows = vec![vec![candle(5, 1), candle(15, 2), candle(25, 3)]];
    let merged = assemble_klines(&windows, Some(10));
    assert!(merged.iter().all(|k| k.timestamp >= 10));
    assert_eq!(merged.len(), 2);
}
