//! The historical-candle backfill: resolving the requested time range,
//! the fixed interval table, the backward walk that plans at most 20
//! request windows of 1000 candles each, and the merge that turns the
//! windows' results into one clean series — filtered at the requested
//! start, sorted ascending by timestamp, one candle per timestamp.

use vstd::prelude::*;
use crate::models::Kline;
use crate::strutil::str_eq;

verus! {

/// Candles one request window covers.
pub const WINDOW_CANDLES: i64 = 1000;

/// Hard ceiling on request windows per call: at most 20,000 candles.
pub const MAX_WINDOWS: usize = 20;

/// The default start of a backfill when none is given.
pub const DEFAULT_START_MS: i64 = 1_583_020_800_000;

/// The candle duration a wire interval name denotes, in milliseconds;
/// unknown names read as fifteen minutes.
pub open spec fn spec_interval_ms(s: Seq<char>) -> i64 {
    if s == "1"@ {
        60_000
    } else if s == "3"@ {
        180_000
    } else if s == "5"@ {
        300_000
    } else if s == "15"@ {
        900_000
    } else if s == "30"@ {
        1_800_000
    } else if s == "60"@ {
        3_600_000
    } else if s == "120"@ {
        7_200_000
    } else if s == "240"@ {
        14_400_000
    } else if s == "360"@ {
        21_600_000
    } else if s == "720"@ {
        43_200_000
    } else if s == "D"@ || s == "d"@ {
        86_400_000
    } else if s == "W"@ || s == "w"@ {
        604_800_000
    } else if s == "M"@ || s == "m"@ {
        2_592_000_000
    } else {
        900_000
    }
}

/// Milliseconds per candle of the named interval.
pub fn interval_millis(interval: &str) -> (r: i64)
    ensures
        r == spec_interval_ms(interval@),
        60_000 <= r <= 2_592_000_000,
{
    if str_eq(interval, "1") {
        60_000
    } else if str_eq(interval, "3") {
        180_000
    } else if str_eq(interval, "5") {
        300_000
    } else if str_eq(interval, "15") {
        900_000
    } else if str_eq(interval, "30") {
        1_800_000
    } else if str_eq(interval, "60") {
        3_600_000
    } else if str_eq(interval, "120") {
        7_200_000
    } else if str_eq(interval, "240") {
        14_400_000
    } else if str_eq(interval, "360") {
        21_600_000
    } else if str_eq(interval, "720") {
        43_200_000
    } else if str_eq(interval, "D") || str_eq(interval, "d") {
        86_400_000
    } else if str_eq(interval, "W") || str_eq(interval, "w") {
        604_800_000
    } else if str_eq(interval, "M") || str_eq(interval, "m") {
        2_592_000_000
    } else {
        900_000
    }
}

/// Relies on chrono's `Utc::now`: the wall clock in milliseconds since
/// the Unix epoch. Nothing is assumed of the returned value.
#[verifier::external_body]
pub(crate) fn current_time_millis() -> i64 {
    chrono::Utc::now().timestamp_millis()
}

/// Resolves the requested range: an absent end means now, an absent
/// start means the fixed default epoch.
pub fn resolve_time_range(start_time: Option<i64>, end_time: Option<i64>) -> (r: (i64, i64))
    ensures
        r.0 == (match start_time {
            Some(s) => s,
            None => DEFAULT_START_MS,
        }),
        end_time matches Some(e) ==> r.1 == e,
{
    let start = match start_time {
        Some(s) => s,
        None => DEFAULT_START_MS,
    };
    let end = match end_time {
        Some(e) => e,
        None => current_time_millis(),
    };
    (start, end)
}

/// Shape of a backfill plan: the first window ends at `end`, every
/// window begins one batch before its end (clamped at `start`), and
/// every later window ends just before the previous one begins.
pub open spec fn windows_wf(r: Seq<(i64, i64)>, start: int, end: int, batch: int) -> bool {
    &&& (r.len() > 0 ==> r[0].1 == end)
    &&& (forall|i: int| 0 <= i < r.len() ==> start <= (#[trigger] r[i]).0 <= r[i].1 <= end)
    &&& (forall|i: int|
        0 <= i < r.len() ==> (#[trigger] r[i]).0 == if r[i].1 - batch >= start {
            r[i].1 - batch
        } else {
            start
        })
    &&& (forall|i: int| 0 < i < r.len() ==> (#[trigger] r[i]).1 == r[i - 1].0 - 1)
}

/// Plans the request windows of a backfill: walking backward from
/// `end` in batches of 1000 candles until `start` is reached, but
/// never more than `MAX_WINDOWS` windows. The plan is empty exactly
/// when the range is; otherwise it either reaches `start` or stops at
/// the window cap.
pub fn plan_windows(start: i64, end: i64, interval_ms: i64) -> (r: Vec<(i64, i64)>)
    requires
        1 <= interval_ms <= 2_592_000_000,
    ensures
        r@.len() <= MAX_WINDOWS,
        (r@.len() == 0) <==> (end <= start),
        windows_wf(r@, start as int, end as int, interval_ms as int * 1000),
        r@.len() > 0 ==> (r@[r@.len() - 1].0 - 1 <= start || r@.len() == MAX_WINDOWS),
{
    let mut r: Vec<(i64, i64)> = Vec::new();
    if end <= start {
        return r;
    }
    let batch: i128 = interval_ms as i128 * 1000;
    let ghost b = batch as int;
    let total: i128 = end as i128 - start as i128;
    let q: i128 = (total + batch - 1) / batch;
    proof {
        let a = total as int;
        assert((a + b - 1) == b * ((a + b - 1) / b) + ((a + b - 1) % b) && 0 <= (a + b - 1) % b
            < b) by (nonlinear_arith)
            requires
                b >= 1,
                a >= 1,
        ;
        assert(b * (q as int) >= a);
        assert(q >= 1) by (nonlinear_arith)
            requires
                b >= 1,
                b * (q as int) >= 1,
        ;
    }
    let num: usize = if q >= MAX_WINDOWS as i128 {
        MAX_WINDOWS
    } else {
        q as usize
    };
    let ghost qg = q as int;
    let mut batch_end: i64 = end;
    let mut j: usize = 0;
    while j < num
        invariant_except_break
            r@.len() == j,
            batch_end as int == end - j as int * (b + 1),
            start < batch_end <= end,
            j > 0 ==> batch_end as int == r@[j - 1].0 - 1,
        invariant
            j <= num,
            1 <= num <= MAX_WINDOWS,
            num as int == (if qg >= MAX_WINDOWS as int {
                MAX_WINDOWS as int
            } else {
                qg
            }),
            b == interval_ms as int * 1000,
            batch as int == b,
            1000 <= b <= 2_592_000_000_000,
            b * qg >= end - start,
            end > start,
            r@.len() <= num,
            windows_wf(r@, start as int, end as int, b),
        ensures
            windows_wf(r@, start as int, end as int, b),
            1 <= r@.len() <= num,
            (r@[r@.len() - 1].0 - 1 <= start) || (r@.len() == num && batch_end as int == end - (
            num as int) * (b + 1) && batch_end > start),
        decreases num - j,
    {
        let ghost old_r = r@;
        let bs128: i128 = batch_end as i128 - batch;
        let bs: i64 = if bs128 >= start as i128 {
            bs128 as i64
        } else {
            start
        };
        r.push((bs, batch_end));
        proof {
            let rr = r@;
            let jj = j as int;
            assert(rr[jj] == (bs, batch_end));
            assert(rr[jj].0 == (if rr[jj].1 - b >= start {
                rr[jj].1 - b
            } else {
                start as int
            }));
            assert(start <= rr[jj].0 <= rr[jj].1 <= end);
            assert(forall|i: int| 0 <= i < jj ==> rr[i] == old_r[i]);
            assert(windows_wf(rr, start as int, end as int, b));
        }
        if bs <= start + 1 {
            break ;
        }
        batch_end = bs - 1;
        proof {
            assert((j + 1) as int * (b + 1) == j as int * (b + 1) + (b + 1)) by (nonlinear_arith);
        }
        j = j + 1;
    }
    proof {
        if !(r@[r@.len() - 1].0 - 1 <= start) && r@.len() < MAX_WINDOWS {
            assert(r@.len() == num && num < MAX_WINDOWS);
            assert(qg == num as int);
            assert((num as int) * (b + 1) == (num as int) * b + num as int) by (nonlinear_arith);
            assert((num as int) * b == b * qg) by (nonlinear_arith)
                requires
                    qg == num as int,
            ;
            assert(b * qg >= end - start);
            assert(batch_end as int == end - ((num as int) * b + num as int));
            assert(batch_end as int <= start as int - num as int);
            assert(false);
        }
    }
    r
}

/// Timestamps are strictly increasing, hence unique.
pub open spec fn strictly_increasing(s: Seq<Kline>) -> bool {
    forall|i: int, j: int|
        0 <= i < j < s.len() ==> (#[trigger] s[i]).timestamp < (#[trigger] s[j]).timestamp
}

/// Whether some candle in `s` has timestamp `ts`.
pub open spec fn has_ts(s: Seq<Kline>, ts: int) -> bool {
    exists|i: int| 0 <= i < s.len() && (#[trigger] s[i]).timestamp == ts
}

/// The first index whose timestamp is not below `ts`.
pub open spec fn insert_pos(s: Seq<Kline>, ts: int) -> int
    decreases s.len(),
{
    if s.len() == 0 {
        0
    } else if s[0].timestamp >= ts {
        0
    } else {
        1 + insert_pos(s.skip(1), ts)
    }
}

/// Sorted insert that keeps one candle per timestamp: a candle whose
/// timestamp is already present is dropped (the first one seen wins).
pub open spec fn spec_insert_clean(s: Seq<Kline>, k: Kline) -> Seq<Kline> {
    if has_ts(s, k.timestamp as int) {
        s
    } else {
        s.insert(insert_pos(s, k.timestamp as int), k)
    }
}

/// Whether a candle passes the start filter.
pub open spec fn admitted(k: Kline, lo: Option<i64>) -> bool {
    match lo {
        Some(l) => k.timestamp >= l,
        None => true,
    }
}

/// The clean series of a raw candle list: candles below the start are
/// dropped, the rest are sorted ascending by timestamp, and of several
/// candles with one timestamp the first in list order is kept.
pub open spec fn spec_clean(input: Seq<Kline>, lo: Option<i64>) -> Seq<Kline>
    decreases input.len(),
{
    if input.len() == 0 {
        Seq::empty()
    } else {
        let prev = spec_clean(input.drop_last(), lo);
        if admitted(input.last(), lo) {
            spec_insert_clean(prev, input.last())
        } else {
            prev
        }
    }
}

pub proof fn lemma_insert_pos_props(s: Seq<Kline>, ts: int)
    ensures
        0 <= insert_pos(s, ts) <= s.len(),
        forall|j: int| 0 <= j < insert_pos(s, ts) ==> (#[trigger] s[j]).timestamp < ts,
        insert_pos(s, ts) < s.len() ==> s[insert_pos(s, ts)].timestamp >= ts,
    decreases s.len(),
{
    if s.len() > 0 && s[0].timestamp < ts {
        lemma_insert_pos_props(s.skip(1), ts);
        assert forall|j: int| 0 <= j < insert_pos(s, ts) implies (#[trigger] s[j]).timestamp
            < ts by {
            if j > 0 {
                assert(s.skip(1)[j - 1] == s[j]);
            }
        }
    }
}

/// The first index at or above `ts` characterizes `insert_pos`.
pub proof fn lemma_insert_pos_at(s: Seq<Kline>, ts: int, p: int)
    requires
        0 <= p <= s.len(),
        forall|j: int| 0 <= j < p ==> (#[trigger] s[j]).timestamp < ts,
        p < s.len() ==> s[p].timestamp >= ts,
    ensures
        insert_pos(s, ts) == p,
{
    lemma_insert_pos_props(s, ts);
    let f = insert_pos(s, ts);
    if f < p {
        assert(s[f].timestamp < ts);
    }
    if f > p {
        assert(s[p].timestamp < ts);
    }
}

/// Inserting a fresh candle keeps the series strictly increasing; the
/// timestamps present afterwards are the old ones plus the new one,
/// and every candle is the new one or an old one.
pub proof fn lemma_insert_clean(s: Seq<Kline>, k: Kline)
    requires
        strictly_increasing(s),
    ensures
        strictly_increasing(spec_insert_clean(s, k)),
        s.len() <= spec_insert_clean(s, k).len() <= s.len() + 1,
        forall|ts: int|
            has_ts(spec_insert_clean(s, k), ts) <==> (has_ts(s, ts) || ts == k.timestamp),
        forall|j: int|
            0 <= j < spec_insert_clean(s, k).len() ==> (#[trigger] spec_insert_clean(s, k)[j]) == k
                || s.contains(spec_insert_clean(s, k)[j]),
        has_ts(s, k.timestamp as int) ==> spec_insert_clean(s, k) == s,
{
    let ts = k.timestamp as int;
    if has_ts(s, ts) {
        assert forall|j: int| 0 <= j < s.len() implies s.contains(s[j]) by {}
    } else {
        lemma_insert_pos_props(s, ts);
        let p = insert_pos(s, ts);
        let r = s.insert(p, k);
        if p < s.len() {
            assert(s[p].timestamp != ts);
            assert(s[p].timestamp > ts);
        }
        assert forall|i: int, j: int| 0 <= i < j < r.len() implies (#[trigger] r[i]).timestamp < (
        #[trigger] r[j]).timestamp by {
            if i < p && j < p {
            } else if i < p && j == p {
            } else if i < p && j > p {
                assert(r[j] == s[j - 1]);
                if j - 1 > i {
                } else {
                    assert(j - 1 == i);
                    assert(s[i].timestamp < ts);
                    assert(r[j].timestamp >= ts);
                }
            } else if i == p {
                assert(r[j] == s[j - 1]);
                assert(j - 1 >= p);
                assert(s[j - 1].timestamp > ts);
            } else {
                assert(r[i] == s[i - 1] && r[j] == s[j - 1]);
            }
        }
        assert forall|t2: int| has_ts(r, t2) implies (has_ts(s, t2) || t2 == ts) by {
            let w = choose|w: int| 0 <= w < r.len() && r[w].timestamp == t2;
            if w < p {
                assert(s[w].timestamp == t2);
            } else if w > p {
                assert(s[w - 1].timestamp == t2);
            }
        }
        assert forall|t2: int| has_ts(s, t2) implies has_ts(r, t2) by {
            let w = choose|w: int| 0 <= w < s.len() && s[w].timestamp == t2;
            if w < p {
                assert(r[w].timestamp == t2);
            } else {
                assert(r[w + 1] == s[w]);
            }
        }
        assert(has_ts(r, ts)) by {
            assert(r[p] == k);
        }
        assert forall|j: int| 0 <= j < r.len() implies (#[trigger] r[j]) == k || s.contains(
            r[j],
        ) by {
            if j < p {
                assert(r[j] == s[j]);
            } else if j > p {
                assert(r[j] == s[j - 1]);
            }
        }
    }
}

/// The clean series is strictly increasing, no longer than its input,
/// made of input candles, all passing the start filter, and holds a
/// timestamp exactly when an admitted input candle has it.
pub proof fn lemma_clean_props(input: Seq<Kline>, lo: Option<i64>)
    ensures
        strictly_increasing(spec_clean(input, lo)),
        spec_clean(input, lo).len() <= input.len(),
        forall|j: int|
            0 <= j < spec_clean(input, lo).len() ==> input.contains(
                #[trigger] spec_clean(input, lo)[j],
            ),
        forall|j: int|
            0 <= j < spec_clean(input, lo).len() ==> admitted(
                #[trigger] spec_clean(input, lo)[j],
                lo,
            ),
        forall|ts: int|
            has_ts(spec_clean(input, lo), ts) <==> (exists|i: int|
                0 <= i < input.len() && (#[trigger] input[i]).timestamp == ts && admitted(
                    input[i],
                    lo,
                )),
    decreases input.len(),
{
    if input.len() > 0 {
        lemma_clean_props(input.drop_last(), lo);
        let prev = spec_clean(input.drop_last(), lo);
        let k = input.last();
        assert forall|j: int| 0 <= j < prev.len() implies input.contains(#[trigger] prev[j]) by {
            assert(input.drop_last().contains(prev[j]));
            let w = choose|w: int| 0 <= w < input.drop_last().len() && input.drop_last()[w]
                == prev[j];
            assert(input[w] == prev[j]);
        }
        if admitted(k, lo) {
            lemma_insert_clean(prev, k);
            let r = spec_insert_clean(prev, k);
            assert forall|j: int| 0 <= j < r.len() implies input.contains(#[trigger] r[j]) by {
                if r[j] == k {
                    assert(input[input.len() - 1] == k);
                } else {
                    assert(prev.contains(r[j]));
                    let w = choose|w: int| 0 <= w < prev.len() && prev[w] == r[j];
                    assert(input.contains(prev[w]));
                }
            }
            assert forall|ts: int| has_ts(r, ts) implies (exists|i: int|
                0 <= i < input.len() && (#[trigger] input[i]).timestamp == ts && admitted(
                    input[i],
                    lo,
                )) by {
                if ts == k.timestamp {
                    assert(input[input.len() - 1].timestamp == ts && admitted(
                        input[input.len() - 1],
                        lo,
                    ));
                } else {
                    assert(has_ts(prev, ts));
                    let i = choose|i: int|
                        0 <= i < input.drop_last().len() && (#[trigger] input.drop_last()[
                            i
                        ]).timestamp == ts && admitted(input.drop_last()[i], lo);
                    assert(input[i].timestamp == ts && admitted(input[i], lo));
                }
            }
            assert forall|ts: int|
                (exists|i: int|
                    0 <= i < input.len() && (#[trigger] input[i]).timestamp == ts && admitted(
                        input[i],
                        lo,
                    )) implies has_ts(r, ts) by {
                let i = choose|i: int|
                    0 <= i < input.len() && (#[trigger] input[i]).timestamp == ts && admitted(
                        input[i],
                        lo,
                    );
                if i < input.len() - 1 {
                    assert(input.drop_last()[i] == input[i]);
                    assert(has_ts(prev, ts));
                }
            }
        } else {
            assert forall|ts: int|
                (exists|i: int|
                    0 <= i < input.len() && (#[trigger] input[i]).timestamp == ts && admitted(
                        input[i],
                        lo,
                    )) implies has_ts(prev, ts) by {
                let i = choose|i: int|
                    0 <= i < input.len() && (#[trigger] input[i]).timestamp == ts && admitted(
                        input[i],
                        lo,
                    );
                assert(i < input.len() - 1);
                assert(input.drop_last()[i] == input[i]);
            }
            assert forall|ts: int| has_ts(prev, ts) implies (exists|i: int|
                0 <= i < input.len() && (#[trigger] input[i]).timestamp == ts && admitted(
                    input[i],
                    lo,
                )) by {
                let i = choose|i: int|
                    0 <= i < input.drop_last().len() && (#[trigger] input.drop_last()[
                        i
                    ]).timestamp == ts && admitted(input.drop_last()[i], lo);
                assert(input[i].timestamp == ts && admitted(input[i], lo));
            }
        }
    }
}

/// Law: cleaning is idempotent — a series that is already strictly
/// increasing and entirely at or above the start filter comes back
/// unchanged.
pub proof fn lemma_clean_idempotent(input: Seq<Kline>, lo: Option<i64>)
    requires
        strictly_increasing(input),
        forall|i: int| 0 <= i < input.len() ==> admitted(#[trigger] input[i], lo),
    ensures
        spec_clean(input, lo) == input,
    decreases input.len(),
{
    if input.len() > 0 {
        let head = input.drop_last();
        let k = input.last();
        assert(forall|i: int| 0 <= i < head.len() ==> admitted(#[trigger] head[i], lo)) by {
            assert(forall|i: int| 0 <= i < head.len() ==> head[i] == input[i]);
        }
        lemma_clean_idempotent(head, lo);
        assert(!has_ts(head, k.timestamp as int)) by {
            assert(forall|i: int|
                0 <= i < head.len() ==> (#[trigger] head[i]).timestamp < k.timestamp);
        }
        lemma_insert_pos_at(head, k.timestamp as int, head.len() as int);
        assert(spec_insert_clean(head, k) =~= input);
    }
}

/// Cleans a raw candle list: drops candles below the start filter,
/// sorts the rest ascending by timestamp, and keeps one candle per
/// timestamp (the first in list order).
pub fn clean_klines(input: &Vec<Kline>, start_time: Option<i64>) -> (r: Vec<Kline>)
    ensures
        r@ == spec_clean(input@, start_time),
        strictly_increasing(r@),
        r@.len() <= input@.len(),
{
    let mut out: Vec<Kline> = Vec::new();
    let n = input.len();
    let mut idx: usize = 0;
    proof {
        assert(input@.take(0) =~= Seq::<Kline>::empty());
    }
    while idx < n
        invariant
            n == input@.len(),
            idx <= n,
            out@ == spec_clean(input@.take(idx as int), start_time),
            strictly_increasing(out@),
            out@.len() <= idx,
        decreases n - idx,
    {
        let k = input[idx];
        let keep = match start_time {
            Some(l) => k.timestamp >= l,
            None => true,
        };
        let ghost out0 = out@;
        if keep {
            let m = out.len();
            let mut p: usize = 0;
            while p < m
                invariant
                    p <= m,
                    m == out@.len(),
                    forall|j: int| 0 <= j < p ==> (#[trigger] out@[j]).timestamp < k.timestamp,
                ensures
                    p <= m,
                    forall|j: int| 0 <= j < p ==> (#[trigger] out@[j]).timestamp < k.timestamp,
                    p < m ==> out@[p as int].timestamp >= k.timestamp,
                decreases m - p,
            {
                if out[p].timestamp >= k.timestamp {
                    break ;
                }
                p = p + 1;
            }
            proof {
                lemma_insert_pos_at(out@, k.timestamp as int, p as int);
            }
            if p < out.len() && out[p].timestamp == k.timestamp {
                proof {
                    assert(has_ts(out@, k.timestamp as int));
                    lemma_insert_clean(out0, k);
                }
            } else {
                proof {
                    assert(!has_ts(out@, k.timestamp as int)) by {
                        if has_ts(out@, k.timestamp as int) {
                            let w = choose|w: int|
                                0 <= w < out@.len() && out@[w].timestamp == k.timestamp;
                            if w < p {
                                assert(out@[w].timestamp < k.timestamp);
                            } else if w > p {
                                assert(out@[p as int].timestamp < out@[w].timestamp);
                            }
                        }
                    }
                    lemma_insert_clean(out0, k);
                }
                out.insert(p, k);
                proof {
                    assert(out@ =~= out0.insert(p as int, k));
                }
            }
        }
        proof {
            assert(input@.take(idx + 1 as int).drop_last() =~= input@.take(idx as int));
            assert(input@.take(idx + 1 as int).last() == input@[idx as int]);
        }
        idx = idx + 1;
    }
    proof {
        assert(input@.take(n as int) =~= input@);
        lemma_clean_props(input@, start_time);
    }
    out
}

/// The candles one window contributes to the merge: at most the first
/// 1000.
pub open spec fn cap_window(w: Seq<Kline>) -> Seq<Kline> {
    if w.len() <= WINDOW_CANDLES as int {
        w
    } else {
        w.take(WINDOW_CANDLES as int)
    }
}

/// The raw candle list the merge sees: at most `MAX_WINDOWS` windows,
/// each capped, in window order.
pub open spec fn flatten_capped(ws: Seq<Seq<Kline>>) -> Seq<Kline>
    decreases ws.len(),
{
    if ws.len() == 0 {
        Seq::empty()
    } else {
        flatten_capped(ws.drop_last()) + cap_window(ws.last())
    }
}

/// The capped flattening of the window results.
pub open spec fn capped_input(ws: Seq<Seq<Kline>>) -> Seq<Kline> {
    if ws.len() <= MAX_WINDOWS as int {
        flatten_capped(ws)
    } else {
        flatten_capped(ws.take(MAX_WINDOWS as int))
    }
}

pub proof fn lemma_flatten_capped_len(ws: Seq<Seq<Kline>>)
    ensures
        flatten_capped(ws).len() <= ws.len() * WINDOW_CANDLES as int,
    decreases ws.len(),
{
    if ws.len() > 0 {
        lemma_flatten_capped_len(ws.drop_last());
        assert((ws.len() - 1) * WINDOW_CANDLES as int + WINDOW_CANDLES as int == ws.len()
            * WINDOW_CANDLES as int) by (nonlinear_arith);
    }
}

/// Merges the candle lists the backfill windows returned into one
/// published series: at most 20 windows of at most 1000 candles each
/// enter; candles below an explicitly given start are dropped; the
/// result is sorted ascending with unique timestamps and never holds
/// more than 20,000 candles.
pub fn assemble_klines(windows: &Vec<Vec<Kline>>, start_time: Option<i64>) -> (r: Vec<Kline>)
    ensures
        r@ == spec_clean(capped_input(windows.deep_view()), start_time),
        strictly_increasing(r@),
        r@.len() <= 20_000,
        start_time matches Some(l) ==> forall|i: int|
            0 <= i < r@.len() ==> (#[trigger] r@[i]).timestamp >= l,
{
    let ghost dv = windows.deep_view();
    let mut collected: Vec<Kline> = Vec::new();
    let wn: usize = if windows.len() <= MAX_WINDOWS {
        windows.len()
    } else {
        MAX_WINDOWS
    };
    let ghost dvc = if dv.len() <= MAX_WINDOWS as int {
        dv
    } else {
        dv.take(MAX_WINDOWS as int)
    };
    let mut w: usize = 0;
    proof {
        assert(dvc.take(0) =~= Seq::<Seq<Kline>>::empty());
    }
    while w < wn
        invariant
            wn <= MAX_WINDOWS,
            wn <= windows@.len(),
            w <= wn,
            dv == windows.deep_view(),
            dvc == (if dv.len() <= MAX_WINDOWS as int {
                dv
            } else {
                dv.take(MAX_WINDOWS as int)
            }),
            dvc.len() == wn,
            collected@ == flatten_capped(dvc.take(w as int)),
            collected@.len() <= w * WINDOW_CANDLES as int,
        decreases wn - w,
    {
        let win = &windows[w];
        let ghost wv = dvc[w as int];
        proof {
            assert(wv =~= win@);
        }
        let cnt: usize = if win.len() <= WINDOW_CANDLES as usize {
            win.len()
        } else {
            WINDOW_CANDLES as usize
        };
        let ghost col0 = collected@;
        let mut t: usize = 0;
        while t < cnt
            invariant
                t <= cnt,
                cnt <= win@.len(),
                cnt <= WINDOW_CANDLES as int,
                wv == win@,
                cnt as int == cap_window(wv).len(),
                collected@ == col0 + cap_window(wv).take(t as int),
            decreases cnt - t,
        {
            collected.push(win[t]);
            proof {
                assert(collected@ =~= col0 + cap_window(wv).take(t + 1 as int));
            }
            t = t + 1;
        }
        proof {
            assert(cap_window(wv).take(cnt as int) =~= cap_window(wv));
            assert(dvc.take(w + 1 as int).drop_last() =~= dvc.take(w as int));
            assert(dvc.take(w + 1 as int).last() == wv);
            assert((w + 1) * WINDOW_CANDLES as int == w * WINDOW_CANDLES as int + WINDOW_CANDLES
                as int) by (nonlinear_arith);
        }
        w = w + 1;
    }
    proof {
        assert(dvc.take(wn as int) =~= dvc);
        assert(collected@ == capped_input(dv));
        lemma_clean_props(collected@, start_time);
    }
    clean_klines(&collected, start_time)
}

} // verus!
