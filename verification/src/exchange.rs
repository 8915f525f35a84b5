//! Reading exchange REST responses. Every endpoint answers with the
//! envelope `{retCode, retMsg, result}`: a non-zero code is an
//! application-level error whatever the transport said; the payload
//! under `result` is walked field by field. Each reader's contract
//! states its entire outcome as a function of the body text, through
//! the JSON tree the text denotes. Transport itself lives outside the
//! library; these functions take the body text.

use vstd::prelude::*;
use crate::jsonext::{
    int_of, json_as_array, json_as_i64, json_as_str, json_get, json_is_null, json_parse,
    json_tree_of, obj_get, JsonModel,
};
use crate::models::{BybitError, CoinBalance, InstrumentInfo, Kline, MarketCategory, TickerInfo,
    WalletBalance};
use crate::strutil::{parse_decimal_e8, parse_ts, spec_parse_decimal_e8, spec_parse_ts, str_eq};

verus! {

/// One unit at the fixed-point scale of 10^8.
pub const ONE_E8: i64 = 100_000_000;

/// How an envelope reads.
pub enum EnvelopeSpec {
    /// The envelope itself is malformed.
    Malformed,
    /// The exchange reported an application error with this message.
    Api(Seq<char>),
    /// Success with no payload: `result` missing or null.
    NoPayload,
    /// Success with this payload tree.
    Payload(JsonModel),
}

/// The envelope of a response tree: `retCode` must be an integer and
/// `retMsg` a string; a non-zero code is an API error carrying the
/// message; otherwise the payload is what stands under `result`.
pub open spec fn spec_envelope(t: JsonModel) -> EnvelopeSpec {
    match obj_get(t, "retCode"@) {
        Some(c) => match int_of(c) {
            Some(code) => match obj_get(t, "retMsg"@) {
                Some(JsonModel::Str(msg)) => if code != 0 {
                    EnvelopeSpec::Api(msg)
                } else {
                    match obj_get(t, "result"@) {
                        Some(JsonModel::Null) => EnvelopeSpec::NoPayload,
                        Some(res) => EnvelopeSpec::Payload(res),
                        None => EnvelopeSpec::NoPayload,
                    }
                },
                _ => EnvelopeSpec::Malformed,
            },
            None => EnvelopeSpec::Malformed,
        },
        None => EnvelopeSpec::Malformed,
    }
}

/// How a list endpoint's response reads.
pub enum ListSpec {
    /// The body or the envelope is malformed.
    Malformed,
    /// The exchange reported an application error with this message.
    Api(Seq<char>),
    /// The rows under `result.list`; no payload reads as no rows.
    Rows(Seq<JsonModel>),
}

/// The rows a list endpoint's body denotes.
pub open spec fn spec_list_of(t: Option<JsonModel>) -> ListSpec {
    match t {
        None => ListSpec::Malformed,
        Some(tree) => match spec_envelope(tree) {
            EnvelopeSpec::Malformed => ListSpec::Malformed,
            EnvelopeSpec::Api(m) => ListSpec::Api(m),
            EnvelopeSpec::NoPayload => ListSpec::Rows(Seq::empty()),
            EnvelopeSpec::Payload(res) => match obj_get(res, "list"@) {
                Some(JsonModel::Arr(rows)) => ListSpec::Rows(rows),
                _ => ListSpec::Malformed,
            },
        },
    }
}

/// The text of a string tree; other trees read as empty.
pub open spec fn str_content(t: JsonModel) -> Seq<char> {
    match t {
        JsonModel::Str(s) => s,
        _ => Seq::empty(),
    }
}

/// A member the wire schema requires to be a string.
pub open spec fn req_str_of(t: JsonModel, key: Seq<char>) -> Option<Seq<char>> {
    match obj_get(t, key) {
        Some(JsonModel::Str(s)) => Some(s),
        _ => None,
    }
}

/// Whether a member the schema defaults to the empty string is well
/// formed: absent, or present as a string.
pub open spec fn opt_str_ok(t: JsonModel, key: Seq<char>) -> bool {
    match obj_get(t, key) {
        None => true,
        Some(JsonModel::Str(_)) => true,
        Some(_) => false,
    }
}

/// The text of a defaulted string member; absent reads as empty.
pub open spec fn opt_str_of(t: JsonModel, key: Seq<char>) -> Seq<char> {
    match obj_get(t, key) {
        Some(JsonModel::Str(s)) => s,
        _ => Seq::empty(),
    }
}

/// A decimal string at the fixed-point scale, or the default when it
/// does not parse.
pub open spec fn spec_dec_or(s: Seq<char>, default: i64) -> i64 {
    match spec_parse_decimal_e8(s) {
        Some(x) => x,
        None => default,
    }
}

/// Checks the response envelope against `spec_envelope`.
fn envelope_result<'a>(v: &'a serde_json::Value) -> (r: Result<
    Option<&'a serde_json::Value>,
    BybitError,
>)
    ensures
        ({
            let e = spec_envelope(crate::jsonext::json_model(*v));
            match r {
                Ok(res_opt) => match res_opt {
                    Some(res) => e == EnvelopeSpec::Payload(crate::jsonext::json_model(*res)),
                    None => e is NoPayload,
                },
                Err(err) => match err {
                    BybitError::ApiError(m) => e matches EnvelopeSpec::Api(msg) && m@ == msg,
                    BybitError::ParseError(_) => e is Malformed,
                    _ => false,
                },
            }
        }),
{
    let code: i64 = match json_get(v, "retCode") {
        Some(c) => match json_as_i64(c) {
            Some(n) => n,
            None => {
                return Err(BybitError::ParseError("malformed retCode".to_owned()));
            },
        },
        None => {
            return Err(BybitError::ParseError("missing retCode".to_owned()));
        },
    };
    let msg = match json_get(v, "retMsg") {
        Some(m) => match json_as_str(m) {
            Some(s) => s,
            None => {
                return Err(BybitError::ParseError("malformed retMsg".to_owned()));
            },
        },
        None => {
            return Err(BybitError::ParseError("missing retMsg".to_owned()));
        },
    };
    if code != 0 {
        return Err(BybitError::ApiError(msg.to_owned()));
    }
    match json_get(v, "result") {
        Some(res) => {
            if json_is_null(res) {
                Ok(None)
            } else {
                Ok(Some(res))
            }
        },
        None => Ok(None),
    }
}

/// A string member the wire schema requires.
fn required_str<'a>(v: &'a serde_json::Value, key: &str) -> (r: Option<&'a str>)
    ensures
        r matches Some(s2) ==> req_str_of(crate::jsonext::json_model(*v), key@) == Some(s2@),
        r is None ==> req_str_of(crate::jsonext::json_model(*v), key@) is None,
{
    match json_get(v, key) {
        Some(f) => json_as_str(f),
        None => None,
    }
}

/// A string member the wire schema defaults to empty when absent; a
/// present non-string is malformed.
fn optional_str<'a>(v: &'a serde_json::Value, key: &str) -> (r: Option<&'a str>)
    ensures
        r matches Some(s2) ==> opt_str_ok(crate::jsonext::json_model(*v), key@) && s2@
            == opt_str_of(crate::jsonext::json_model(*v), key@),
        r is None ==> !opt_str_ok(crate::jsonext::json_model(*v), key@),
{
    match json_get(v, key) {
        Some(f) => json_as_str(f),
        None => {
            proof {
                reveal_strlit("");
                assert(""@ =~= Seq::<char>::empty());
            }
            Some("")
        },
    }
}

/// A decimal string read at the fixed-point scale, or the given
/// default when it does not parse.
fn price_or(s: &str, default: i64) -> (r: i64)
    ensures
        r == spec_dec_or(s@, default),
{
    match parse_decimal_e8(s) {
        Some(x) => x,
        None => default,
    }
}

/// Extracts the rows of a list endpoint against `spec_list_of`; an
/// `Err` is the malformed or API case, with no rows to walk.
fn list_rows<'a>(v: &'a serde_json::Value) -> (r: Result<Vec<&'a serde_json::Value>, BybitError>)
    ensures
        ({
            let o = spec_list_of(Some(crate::jsonext::json_model(*v)));
            match r {
                Ok(items) => o matches ListSpec::Rows(rows) && items@.len() == rows.len() && (
                forall|i: int|
                    0 <= i < rows.len() ==> crate::jsonext::json_model(*#[trigger] items@[i])
                        == rows[i]),
                Err(err) => match err {
                    BybitError::ApiError(m) => o matches ListSpec::Api(msg) && m@ == msg,
                    BybitError::ParseError(_) => o is Malformed,
                    _ => false,
                },
            }
        }),
{
    let mut items: Vec<&'a serde_json::Value> = Vec::new();
    let result = match envelope_result(v) {
        Ok(Some(res)) => res,
        Ok(None) => {
            return Ok(items);
        },
        Err(e) => {
            return Err(e);
        },
    };
    let list = match json_get(result, "list") {
        Some(l) => match json_as_array(l) {
            Some(a) => a,
            None => {
                return Err(BybitError::ParseError("malformed response list".to_owned()));
            },
        },
        None => {
            return Err(BybitError::ParseError("missing response list".to_owned()));
        },
    };
    let ghost rows = match spec_list_of(Some(crate::jsonext::json_model(*v))) {
        ListSpec::Rows(rows) => rows,
        _ => Seq::empty(),
    };
    let n = list.len();
    let mut i: usize = 0;
    while i < n
        invariant
            i <= n,
            n == list@.len(),
            n == rows.len(),
            items@.len() == i,
            forall|j: int|
                0 <= j < n ==> crate::jsonext::json_model(#[trigger] list@[j]) == rows[j],
            forall|j: int|
                0 <= j < i ==> crate::jsonext::json_model(*#[trigger] items@[j]) == rows[j],
        decreases n - i,
    {
        items.push(&list[i]);
        i = i + 1;
    }
    Ok(items)
}

/// One candle row: an array of exactly seven strings.
pub open spec fn spec_kline_row(t: JsonModel) -> Option<Kline> {
    match t {
        JsonModel::Arr(cells) => if cells.len() == 7 && (forall|i: int|
            0 <= i < 7 ==> (#[trigger] cells[i]) is Str) {
            Some(
                Kline {
                    timestamp: spec_parse_ts(str_content(cells[0])),
                    open: spec_dec_or(str_content(cells[1]), 0),
                    high: spec_dec_or(str_content(cells[2]), 0),
                    low: spec_dec_or(str_content(cells[3]), 0),
                    close: spec_dec_or(str_content(cells[4]), 0),
                    volume: spec_dec_or(str_content(cells[5]), 0),
                },
            )
        } else {
            None
        },
        _ => None,
    }
}

/// Whether every candle row is well formed.
pub open spec fn all_kline_rows_ok(rows: Seq<JsonModel>) -> bool {
    forall|i: int| 0 <= i < rows.len() ==> spec_kline_row(#[trigger] rows[i]) is Some
}

/// The candles the rows denote, in row order.
pub open spec fn kline_rows_values(rows: Seq<JsonModel>) -> Seq<Kline> {
    Seq::new(rows.len(), |i: int| spec_kline_row(rows[i]).unwrap())
}

/// Reads a candle-list response: the rows under `result.list`, each an
/// array of seven decimal strings. A missing or null payload is an
/// empty list; a structurally malformed body is a parse error; a
/// malformed number inside a row reads as zero.
pub fn parse_kline_response(body: &str) -> (r: Result<Vec<Kline>, BybitError>)
    ensures
        ({
            let o = spec_list_of(json_tree_of(body@));
            match o {
                ListSpec::Malformed => r matches Err(e) && e is ParseError,
                ListSpec::Api(m) => r matches Err(e) && (e matches BybitError::ApiError(s) && s@
                    == m),
                ListSpec::Rows(rows) => if all_kline_rows_ok(rows) {
                    r matches Ok(v) && v@ == kline_rows_values(rows)
                } else {
                    r matches Err(e) && e is ParseError
                },
            }
        }),
{
    let v = match json_parse(body) {
        Some(v) => v,
        None => {
            return Err(BybitError::ParseError("invalid JSON body".to_owned()));
        },
    };
    let items = match list_rows(&v) {
        Ok(items) => items,
        Err(e) => {
            return Err(e);
        },
    };
    let ghost rows = match spec_list_of(json_tree_of(body@)) {
        ListSpec::Rows(rows) => rows,
        _ => Seq::empty(),
    };
    let mut out: Vec<Kline> = Vec::new();
    let n = items.len();
    let mut i: usize = 0;
    while i < n
        invariant
            i <= n,
            n == items@.len(),
            n == rows.len(),
            out@.len() == i,
            spec_list_of(json_tree_of(body@)) == ListSpec::Rows(rows),
            forall|j: int|
                0 <= j < n ==> crate::jsonext::json_model(*#[trigger] items@[j]) == rows[j],
            forall|j: int|
                0 <= j < i ==> spec_kline_row(#[trigger] rows[j]) is Some && out@[j]
                    == spec_kline_row(rows[j]).unwrap(),
        decreases n - i,
    {
        let row = match json_as_array(items[i]) {
            Some(a) => a,
            None => {
                return Err(BybitError::ParseError("malformed kline row".to_owned()));
            },
        };
        if row.len() != 7 {
            return Err(BybitError::ParseError("malformed kline row".to_owned()));
        }
        let ghost cells = match rows[i as int] {
            JsonModel::Arr(cells) => cells,
            _ => Seq::empty(),
        };
        let mut fields: Vec<&str> = Vec::new();
        let mut f: usize = 0;
        while f < 7
            invariant
                f <= 7,
                row@.len() == 7,
                cells.len() == 7,
                fields@.len() == f,
                spec_list_of(json_tree_of(body@)) == ListSpec::Rows(rows),
                0 <= i < rows.len(),
                rows[i as int] == JsonModel::Arr(cells),
                forall|j: int|
                    0 <= j < 7 ==> crate::jsonext::json_model(#[trigger] row@[j]) == cells[j],
                forall|j: int|
                    0 <= j < f ==> (#[trigger] cells[j]) is Str && fields@[j]@ == str_content(
                        cells[j],
                    ),
            decreases 7 - f,
        {
            match json_as_str(&row[f]) {
                Some(s) => fields.push(s),
                None => {
                    proof {
                        assert(spec_kline_row(rows[i as int]) is None);
                    }
                    return Err(BybitError::ParseError("malformed kline row".to_owned()));
                },
            }
            f = f + 1;
        }
        let k = Kline {
            timestamp: parse_ts(fields[0]),
            open: price_or(fields[1], 0),
            high: price_or(fields[2], 0),
            low: price_or(fields[3], 0),
            close: price_or(fields[4], 0),
            volume: price_or(fields[5], 0),
        };
        proof {
            assert(spec_kline_row(rows[i as int]) == Some(k));
        }
        out.push(k);
        i = i + 1;
    }
    proof {
        if all_kline_rows_ok(rows) {
            assert(out@ =~= kline_rows_values(rows));
        }
    }
    Ok(out)
}

/// Whether a ticker row is well formed: symbol and last price are
/// required strings, the day statistics default to empty.
pub open spec fn ticker_row_ok(t: JsonModel) -> bool {
    &&& req_str_of(t, "symbol"@) is Some
    &&& req_str_of(t, "lastPrice"@) is Some
    &&& opt_str_ok(t, "price24hPcnt"@)
    &&& opt_str_ok(t, "highPrice24h"@)
    &&& opt_str_ok(t, "lowPrice24h"@)
    &&& opt_str_ok(t, "volume24h"@)
    &&& opt_str_ok(t, "turnover24h"@)
}

/// The ticker record a well-formed row denotes: each number parsed at
/// the fixed-point scale or zero, the given category, and no leverage
/// (this endpoint carries none).
pub open spec fn ticker_matches(ti: TickerInfo, t: JsonModel, category: MarketCategory) -> bool {
    &&& ti.symbol@ == req_str_of(t, "symbol"@).unwrap()
    &&& ti.last_price == spec_dec_or(req_str_of(t, "lastPrice"@).unwrap(), 0)
    &&& ti.price_24h_pcnt == spec_dec_or(opt_str_of(t, "price24hPcnt"@), 0)
    &&& ti.high_price_24h == spec_dec_or(opt_str_of(t, "highPrice24h"@), 0)
    &&& ti.low_price_24h == spec_dec_or(opt_str_of(t, "lowPrice24h"@), 0)
    &&& ti.volume_24h == spec_dec_or(opt_str_of(t, "volume24h"@), 0)
    &&& ti.turnover_24h == spec_dec_or(opt_str_of(t, "turnover24h"@), 0)
    &&& ti.category == category
    &&& ti.max_leverage == 0
}

/// Whether every ticker row is well formed.
pub open spec fn all_ticker_rows_ok(rows: Seq<JsonModel>) -> bool {
    forall|i: int| 0 <= i < rows.len() ==> ticker_row_ok(#[trigger] rows[i])
}

/// Reads a ticker-list response into ticker records of the given
/// category.
pub fn parse_ticker_response(body: &str, category: MarketCategory) -> (r: Result<
    Vec<TickerInfo>,
    BybitError,
>)
    ensures
        ({
            let o = spec_list_of(json_tree_of(body@));
            match o {
                ListSpec::Malformed => r matches Err(e) && e is ParseError,
                ListSpec::Api(m) => r matches Err(e) && (e matches BybitError::ApiError(s) && s@
                    == m),
                ListSpec::Rows(rows) => if all_ticker_rows_ok(rows) {
                    r matches Ok(v) && v@.len() == rows.len() && (forall|i: int|
                        0 <= i < rows.len() ==> ticker_matches(
                            #[trigger] v@[i],
                            rows[i],
                            category,
                        ))
                } else {
                    r matches Err(e) && e is ParseError
                },
            }
        }),
{
    let v = match json_parse(body) {
        Some(v) => v,
        None => {
            return Err(BybitError::ParseError("invalid JSON body".to_owned()));
        },
    };
    let items = match list_rows(&v) {
        Ok(items) => items,
        Err(e) => {
            return Err(e);
        },
    };
    let ghost rows = match spec_list_of(json_tree_of(body@)) {
        ListSpec::Rows(rows) => rows,
        _ => Seq::empty(),
    };
    let mut out: Vec<TickerInfo> = Vec::new();
    let n = items.len();
    let mut i: usize = 0;
    while i < n
        invariant
            i <= n,
            n == items@.len(),
            n == rows.len(),
            out@.len() == i,
            spec_list_of(json_tree_of(body@)) == ListSpec::Rows(rows),
            forall|j: int|
                0 <= j < n ==> crate::jsonext::json_model(*#[trigger] items@[j]) == rows[j],
            forall|j: int|
                0 <= j < i ==> ticker_row_ok(#[trigger] rows[j]) && ticker_matches(
                    out@[j],
                    rows[j],
                    category,
                ),
        decreases n - i,
    {
        let t = items[i];
        let symbol = match required_str(t, "symbol") {
            Some(s) => s,
            None => {
                return Err(BybitError::ParseError("malformed ticker".to_owned()));
            },
        };
        let last_price = match required_str(t, "lastPrice") {
            Some(s) => s,
            None => {
                return Err(BybitError::ParseError("malformed ticker".to_owned()));
            },
        };
        let pcnt = match optional_str(t, "price24hPcnt") {
            Some(s) => s,
            None => {
                return Err(BybitError::ParseError("malformed ticker".to_owned()));
            },
        };
        let high = match optional_str(t, "highPrice24h") {
            Some(s) => s,
            None => {
                return Err(BybitError::ParseError("malformed ticker".to_owned()));
            },
        };
        let low = match optional_str(t, "lowPrice24h") {
            Some(s) => s,
            None => {
                return Err(BybitError::ParseError("malformed ticker".to_owned()));
            },
        };
        let vol = match optional_str(t, "volume24h") {
            Some(s) => s,
            None => {
                return Err(BybitError::ParseError("malformed ticker".to_owned()));
            },
        };
        let turn = match optional_str(t, "turnover24h") {
            Some(s) => s,
            None => {
                return Err(BybitError::ParseError("malformed ticker".to_owned()));
            },
        };
        out.push(
            TickerInfo {
                symbol: symbol.to_owned(),
                last_price: price_or(last_price, 0),
                price_24h_pcnt: price_or(pcnt, 0),
                high_price_24h: price_or(high, 0),
                low_price_24h: price_or(low, 0),
                volume_24h: price_or(vol, 0),
                turnover_24h: price_or(turn, 0),
                category,
                max_leverage: 0,
            },
        );
        i = i + 1;
    }
    Ok(out)
}

/// Reads a ticker-list response and keeps the first record: the answer
/// to a single-symbol query. An empty list is a parse error.
pub fn parse_ticker_single(body: &str, category: MarketCategory) -> (r: Result<
    TickerInfo,
    BybitError,
>)
    ensures
        ({
            let o = spec_list_of(json_tree_of(body@));
            match o {
                ListSpec::Malformed => r matches Err(e) && e is ParseError,
                ListSpec::Api(m) => r matches Err(e) && (e matches BybitError::ApiError(s) && s@
                    == m),
                ListSpec::Rows(rows) => if all_ticker_rows_ok(rows) && rows.len() > 0 {
                    r matches Ok(t) && ticker_matches(t, rows[0], category)
                } else {
                    r matches Err(e) && e is ParseError
                },
            }
        }),
{
    let mut list = match parse_ticker_response(body, category) {
        Ok(l) => l,
        Err(e) => {
            return Err(e);
        },
    };
    if list.len() == 0 {
        return Err(BybitError::ParseError("no ticker data".to_owned()));
    }
    let first = list.remove(0);
    Ok(first)
}

/// Whether an instrument row is well formed: symbol and status are
/// required strings, the coins default to empty, and a present
/// leverage filter may only carry a string cap.
pub open spec fn instrument_row_ok(t: JsonModel) -> bool {
    &&& req_str_of(t, "symbol"@) is Some
    &&& req_str_of(t, "status"@) is Some
    &&& opt_str_ok(t, "baseCoin"@)
    &&& opt_str_ok(t, "quoteCoin"@)
    &&& (match obj_get(t, "leverageFilter"@) {
        None => true,
        Some(JsonModel::Null) => true,
        Some(lf) => opt_str_ok(lf, "maxLeverage"@),
    })
}

/// The leverage cap an instrument row denotes: the parsed
/// `leverageFilter.maxLeverage`, or one when the filter or the cap is
/// absent or does not parse.
pub open spec fn leverage_of(t: JsonModel) -> i64 {
    match obj_get(t, "leverageFilter"@) {
        None => ONE_E8,
        Some(JsonModel::Null) => ONE_E8,
        Some(lf) => spec_dec_or(opt_str_of(lf, "maxLeverage"@), ONE_E8),
    }
}

/// The instrument record a well-formed row denotes.
pub open spec fn instrument_matches(
    ii: InstrumentInfo,
    t: JsonModel,
    category: MarketCategory,
) -> bool {
    &&& ii.symbol@ == req_str_of(t, "symbol"@).unwrap()
    &&& ii.status@ == req_str_of(t, "status"@).unwrap()
    &&& ii.base_coin@ == opt_str_of(t, "baseCoin"@)
    &&& ii.quote_coin@ == opt_str_of(t, "quoteCoin"@)
    &&& ii.category == category
    &&& ii.max_leverage == leverage_of(t)
}

/// Whether every instrument row is well formed.
pub open spec fn all_instrument_rows_ok(rows: Seq<JsonModel>) -> bool {
    forall|i: int| 0 <= i < rows.len() ==> instrument_row_ok(#[trigger] rows[i])
}

/// Reads an instrument-list response into instrument records of the
/// given category; a missing or malformed leverage cap reads as one.
pub fn parse_instruments_response(body: &str, category: MarketCategory) -> (r: Result<
    Vec<InstrumentInfo>,
    BybitError,
>)
    ensures
        ({
            let o = spec_list_of(json_tree_of(body@));
            match o {
                ListSpec::Malformed => r matches Err(e) && e is ParseError,
                ListSpec::Api(m) => r matches Err(e) && (e matches BybitError::ApiError(s) && s@
                    == m),
                ListSpec::Rows(rows) => if all_instrument_rows_ok(rows) {
                    r matches Ok(v) && v@.len() == rows.len() && (forall|i: int|
                        0 <= i < rows.len() ==> instrument_matches(
                            #[trigger] v@[i],
                            rows[i],
                            category,
                        ))
                } else {
                    r matches Err(e) && e is ParseError
                },
            }
        }),
{
    let v = match json_parse(body) {
        Some(v) => v,
        None => {
            return Err(BybitError::ParseError("invalid JSON body".to_owned()));
        },
    };
    let items = match list_rows(&v) {
        Ok(items) => items,
        Err(e) => {
            return Err(e);
        },
    };
    let ghost rows = match spec_list_of(json_tree_of(body@)) {
        ListSpec::Rows(rows) => rows,
        _ => Seq::empty(),
    };
    let mut out: Vec<InstrumentInfo> = Vec::new();
    let n = items.len();
    let mut i: usize = 0;
    while i < n
        invariant
            i <= n,
            n == items@.len(),
            n == rows.len(),
            out@.len() == i,
            spec_list_of(json_tree_of(body@)) == ListSpec::Rows(rows),
            forall|j: int|
                0 <= j < n ==> crate::jsonext::json_model(*#[trigger] items@[j]) == rows[j],
            forall|j: int|
                0 <= j < i ==> instrument_row_ok(#[trigger] rows[j]) && instrument_matches(
                    out@[j],
                    rows[j],
                    category,
                ),
        decreases n - i,
    {
        let ins = items[i];
        let symbol = match required_str(ins, "symbol") {
            Some(s) => s,
            None => {
                return Err(BybitError::ParseError("malformed instrument".to_owned()));
            },
        };
        let status = match required_str(ins, "status") {
            Some(s) => s,
            None => {
                return Err(BybitError::ParseError("malformed instrument".to_owned()));
            },
        };
        let base = match optional_str(ins, "baseCoin") {
            Some(s) => s,
            None => {
                return Err(BybitError::ParseError("malformed instrument".to_owned()));
            },
        };
        let quote = match optional_str(ins, "quoteCoin") {
            Some(s) => s,
            None => {
                return Err(BybitError::ParseError("malformed instrument".to_owned()));
            },
        };
        let max_leverage: i64 = match json_get(ins, "leverageFilter") {
            Some(lf) => {
                if json_is_null(lf) {
                    ONE_E8
                } else {
                    match optional_str(lf, "maxLeverage") {
                        Some(ml) => price_or(ml, ONE_E8),
                        None => {
                            return Err(
                                BybitError::ParseError("malformed instrument".to_owned()),
                            );
                        },
                    }
                }
            },
            None => ONE_E8,
        };
        out.push(
            InstrumentInfo {
                symbol: symbol.to_owned(),
                base_coin: base.to_owned(),
                quote_coin: quote.to_owned(),
                status: status.to_owned(),
                category,
                max_leverage,
            },
        );
        i = i + 1;
    }
    Ok(out)
}

/// The exact sum of the coin equities.
pub open spec fn sum_equity(cs: Seq<CoinBalance>) -> int
    decreases cs.len(),
{
    if cs.len() == 0 {
        0
    } else {
        sum_equity(cs.drop_last()) + cs.last().equity
    }
}

/// The exact sum of the available coin balances.
pub open spec fn sum_available(cs: Seq<CoinBalance>) -> int
    decreases cs.len(),
{
    if cs.len() == 0 {
        0
    } else {
        sum_available(cs.drop_last()) + cs.last().available
    }
}

/// Whether a coin entry is well formed: name and the two balances are
/// required strings, the unrealized profit defaults to empty.
pub open spec fn coin_row_ok(t: JsonModel) -> bool {
    &&& req_str_of(t, "coin"@) is Some
    &&& req_str_of(t, "equity"@) is Some
    &&& req_str_of(t, "availableToWithdraw"@) is Some
    &&& opt_str_ok(t, "unrealisedPnl"@)
}

/// The coin balances a well-formed entry denotes; malformed numbers
/// read as zero.
pub open spec fn coin_matches(cb: CoinBalance, t: JsonModel) -> bool {
    &&& cb.coin@ == req_str_of(t, "coin"@).unwrap()
    &&& cb.equity == spec_dec_or(req_str_of(t, "equity"@).unwrap(), 0)
    &&& cb.available == spec_dec_or(req_str_of(t, "availableToWithdraw"@).unwrap(), 0)
    &&& cb.unrealized_pnl == spec_dec_or(opt_str_of(t, "unrealisedPnl"@), 0)
}

/// Whether every coin entry is well formed.
pub open spec fn all_coin_rows_ok(rows: Seq<JsonModel>) -> bool {
    forall|i: int| 0 <= i < rows.len() ==> coin_row_ok(#[trigger] rows[i])
}

/// The coin entries a wallet body denotes: the first account's coins.
/// A missing payload or an empty account list is malformed.
pub open spec fn spec_wallet_rows(t: Option<JsonModel>) -> ListSpec {
    match t {
        None => ListSpec::Malformed,
        Some(tree) => match spec_envelope(tree) {
            EnvelopeSpec::Malformed => ListSpec::Malformed,
            EnvelopeSpec::Api(m) => ListSpec::Api(m),
            EnvelopeSpec::NoPayload => ListSpec::Malformed,
            EnvelopeSpec::Payload(res) => match obj_get(res, "list"@) {
                Some(JsonModel::Arr(accounts)) => if accounts.len() == 0 {
                    ListSpec::Malformed
                } else {
                    match obj_get(accounts[0], "coin"@) {
                        Some(JsonModel::Arr(coins)) => ListSpec::Rows(coins),
                        _ => ListSpec::Malformed,
                    }
                },
                _ => ListSpec::Malformed,
            },
        },
    }
}

/// Reads a wallet-balance response: the first account's coins, with
/// the totals the exact sums over the returned coin entries.
pub fn parse_wallet_response(body: &str) -> (r: Result<WalletBalance, BybitError>)
    ensures
        ({
            let o = spec_wallet_rows(json_tree_of(body@));
            match o {
                ListSpec::Malformed => r matches Err(e) && e is ParseError,
                ListSpec::Api(m) => r matches Err(e) && (e matches BybitError::ApiError(s) && s@
                    == m),
                ListSpec::Rows(coins) => if all_coin_rows_ok(coins) {
                    r matches Ok(w) && w.coins@.len() == coins.len() && (forall|i: int|
                        0 <= i < coins.len() ==> coin_matches(#[trigger] w.coins@[i], coins[i]))
                        && w.total_equity as int == sum_equity(w.coins@)
                        && w.available_balance as int == sum_available(w.coins@)
                } else {
                    r matches Err(e) && e is ParseError
                },
            }
        }),
{
    let v = match json_parse(body) {
        Some(v) => v,
        None => {
            return Err(BybitError::ParseError("invalid JSON body".to_owned()));
        },
    };
    let result = match envelope_result(&v) {
        Ok(Some(res)) => res,
        Ok(None) => {
            return Err(BybitError::ParseError("no balance data".to_owned()));
        },
        Err(e) => {
            return Err(e);
        },
    };
    let accounts = match json_get(result, "list") {
        Some(l) => match json_as_array(l) {
            Some(a) => a,
            None => {
                return Err(BybitError::ParseError("malformed account list".to_owned()));
            },
        },
        None => {
            return Err(BybitError::ParseError("missing account list".to_owned()));
        },
    };
    if accounts.len() == 0 {
        return Err(BybitError::ParseError("no balance data".to_owned()));
    }
    let coins = match json_get(&accounts[0], "coin") {
        Some(c) => match json_as_array(c) {
            Some(a) => a,
            None => {
                return Err(BybitError::ParseError("malformed coin list".to_owned()));
            },
        },
        None => {
            return Err(BybitError::ParseError("missing coin list".to_owned()));
        },
    };
    let ghost rows = match spec_wallet_rows(json_tree_of(body@)) {
        ListSpec::Rows(rows) => rows,
        _ => Seq::empty(),
    };
    let mut out: Vec<CoinBalance> = Vec::new();
    let mut total_equity: i128 = 0;
    let mut available: i128 = 0;
    let n = coins.len();
    let mut i: usize = 0;
    while i < n
        invariant
            i <= n,
            n == coins@.len(),
            n == rows.len(),
            out@.len() == i,
            spec_wallet_rows(json_tree_of(body@)) == ListSpec::Rows(rows),
            forall|j: int|
                0 <= j < n ==> crate::jsonext::json_model(#[trigger] coins@[j]) == rows[j],
            forall|j: int|
                0 <= j < i ==> coin_row_ok(#[trigger] rows[j]) && coin_matches(out@[j], rows[j]),
            total_equity as int == sum_equity(out@),
            available as int == sum_available(out@),
            -(i as int) * 0x8000_0000_0000_0000 <= total_equity as int <= (i as int)
                * 0x7fff_ffff_ffff_ffff,
            -(i as int) * 0x8000_0000_0000_0000 <= available as int <= (i as int)
                * 0x7fff_ffff_ffff_ffff,
        decreases n - i,
    {
        let c = &coins[i];
        let name = match required_str(c, "coin") {
            Some(s) => s,
            None => {
                return Err(BybitError::ParseError("malformed coin entry".to_owned()));
            },
        };
        let equity_s = match required_str(c, "equity") {
            Some(s) => s,
            None => {
                return Err(BybitError::ParseError("malformed coin entry".to_owned()));
            },
        };
        let avail_s = match required_str(c, "availableToWithdraw") {
            Some(s) => s,
            None => {
                return Err(BybitError::ParseError("malformed coin entry".to_owned()));
            },
        };
        let pnl_s = match optional_str(c, "unrealisedPnl") {
            Some(s) => s,
            None => {
                return Err(BybitError::ParseError("malformed coin entry".to_owned()));
            },
        };
        let entry = CoinBalance {
            coin: name.to_owned(),
            equity: price_or(equity_s, 0),
            available: price_or(avail_s, 0),
            unrealized_pnl: price_or(pnl_s, 0),
        };
        proof {
            assert((i as int + 1) * 0x8000_0000_0000_0000 == (i as int) * 0x8000_0000_0000_0000
                + 0x8000_0000_0000_0000) by (nonlinear_arith);
            assert((i as int + 1) * 0x7fff_ffff_ffff_ffff == (i as int) * 0x7fff_ffff_ffff_ffff
                + 0x7fff_ffff_ffff_ffff) by (nonlinear_arith);
            assert((i as int) * 0x8000_0000_0000_0000 <= 0x7fff_ffff_ffff_ffff_ffff_ffff_ffff_ffff)
                by (nonlinear_arith)
                requires
                    0 <= i <= usize::MAX,
            ;
            assert((i as int) * 0x7fff_ffff_ffff_ffff <= 0x7fff_ffff_ffff_ffff_ffff_ffff_ffff_ffff)
                by (nonlinear_arith)
                requires
                    0 <= i <= usize::MAX,
            ;
        }
        total_equity = total_equity + entry.equity as i128;
        available = available + entry.available as i128;
        let ghost out0 = out@;
        out.push(entry);
        proof {
            assert(out@.drop_last() =~= out0);
            assert(out@.last() == entry);
        }
        i = i + 1;
    }
    Ok(WalletBalance { total_equity, available_balance: available, coins: out })
}

/// The leverage cap of the last instrument carrying `sym`, if any;
/// with several records for one symbol the last one wins.
pub open spec fn find_last_leverage(s: Seq<InstrumentInfo>, sym: Seq<char>) -> Option<i64>
    decreases s.len(),
{
    if s.len() == 0 {
        None
    } else if s.last().symbol@ == sym {
        Some(s.last().max_leverage)
    } else {
        find_last_leverage(s.drop_last(), sym)
    }
}

/// One ticker after the join: every field kept, except that the
/// leverage comes from the instruments when they know the symbol.
pub open spec fn leverage_joined(
    t0: TickerInfo,
    t1: TickerInfo,
    instr: Seq<InstrumentInfo>,
) -> bool {
    &&& t1.symbol == t0.symbol
    &&& t1.last_price == t0.last_price
    &&& t1.price_24h_pcnt == t0.price_24h_pcnt
    &&& t1.high_price_24h == t0.high_price_24h
    &&& t1.low_price_24h == t0.low_price_24h
    &&& t1.volume_24h == t0.volume_24h
    &&& t1.turnover_24h == t0.turnover_24h
    &&& t1.category == t0.category
    &&& t1.max_leverage == (match find_last_leverage(instr, t0.symbol@) {
        Some(l) => l,
        None => t0.max_leverage,
    })
}

/// Joins the instruments' leverage caps into the tickers by symbol:
/// a ticker whose symbol no instrument knows keeps its leverage.
pub fn join_leverage(tickers: &mut Vec<TickerInfo>, instruments: &Vec<InstrumentInfo>)
    ensures
        final(tickers)@.len() == old(tickers)@.len(),
        forall|i: int|
            0 <= i < final(tickers)@.len() ==> leverage_joined(
                old(tickers)@[i],
                #[trigger] final(tickers)@[i],
                instruments@,
            ),
{
    let n = tickers.len();
    let mut i: usize = 0;
    while i < n
        invariant
            i <= n,
            n == tickers@.len(),
            n == old(tickers)@.len(),
            forall|k: int|
                0 <= k < i ==> leverage_joined(
                    old(tickers)@[k],
                    #[trigger] tickers@[k],
                    instruments@,
                ),
            forall|k: int| i <= k < n ==> (#[trigger] tickers@[k]) == old(tickers)@[k],
        decreases n - i,
    {
        let mut t = tickers.remove(i);
        let ghost t0 = t;
        let mut lev: Option<i64> = None;
        let m = instruments.len();
        let mut j: usize = 0;
        proof {
            assert(instruments@.take(0) =~= Seq::<InstrumentInfo>::empty());
        }
        while j < m
            invariant
                j <= m,
                m == instruments@.len(),
                t == t0,
                lev == find_last_leverage(instruments@.take(j as int), t0.symbol@),
            decreases m - j,
        {
            if str_eq(instruments[j].symbol.as_str(), t.symbol.as_str()) {
                lev = Some(instruments[j].max_leverage);
            }
            proof {
                assert(instruments@.take(j + 1 as int).drop_last() =~= instruments@.take(j as int));
                assert(instruments@.take(j + 1 as int).last() == instruments@[j as int]);
            }
            j = j + 1;
        }
        proof {
            assert(instruments@.take(m as int) =~= instruments@);
        }
        match lev {
            Some(l) => {
                t.max_leverage = l;
            },
            None => {},
        }
        tickers.insert(i, t);
        proof {
            assert(leverage_joined(t0, tickers@[i as int], instruments@));
        }
        i = i + 1;
    }
}

} // verus!
