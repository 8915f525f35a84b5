//! Data model of the trading core. Monetary quantities (prices,
//! volumes, balances, leverage) are fixed-point integers scaled by
//! 10^8; percentages are basis points. Timestamps are milliseconds
//! since the Unix epoch.

use vstd::prelude::*;
use crate::strutil::{ascii_lower, lower_of, str_eq};

verus! {

/// Supported source exchanges.
#[derive(Clone, Copy, Debug, PartialEq, Eq, Structural)]
pub enum Exchange {
    Binance,
    Bybit,
}

/// One observed price sample for a symbol. `price` and `volume` are
/// fixed-point, scaled by 10^8.
#[derive(Clone, Debug)]
pub struct StandardTick {
    pub symbol: String,
    pub price: i64,
    pub volume: i64,
    pub timestamp: i64,
    pub exchange: Exchange,
}

/// The mathematical value of a tick.
pub struct TickView {
    pub symbol: Seq<char>,
    pub price: int,
    pub volume: int,
    pub timestamp: int,
    pub exchange: Exchange,
}

impl View for StandardTick {
    type V = TickView;

    open spec fn view(&self) -> TickView {
        TickView {
            symbol: self.symbol@,
            price: self.price as int,
            volume: self.volume as int,
            timestamp: self.timestamp as int,
            exchange: self.exchange,
        }
    }
}

impl StandardTick {
    /// A copy of the tick with the same value.
    pub fn duplicate(&self) -> (r: StandardTick)
        ensures
            r@ == self@,
    {
        StandardTick {
            symbol: self.symbol.clone(),
            price: self.price,
            volume: self.volume,
            timestamp: self.timestamp,
            exchange: self.exchange,
        }
    }
}

/// Side of an open position.
#[derive(Clone, Copy, Debug, PartialEq, Eq, Structural)]
pub enum PositionSide {
    Long,
    Short,
}

/// An open position, owned by the shared state and only observed by
/// modules. Prices and quantity are fixed-point, scaled by 10^8.
#[derive(Clone, Debug)]
pub struct Position {
    pub id: String,
    pub symbol: String,
    pub side: PositionSide,
    pub entry_price: i64,
    pub quantity: i64,
    pub stop_loss: Option<i64>,
    pub take_profit: Option<i64>,
    pub created_at: i64,
}

/// Side of an order.
#[derive(Clone, Copy, Debug, PartialEq, Eq, Structural)]
pub enum OrderSide {
    Buy,
    Sell,
}

/// Kind of an order.
#[derive(Clone, Copy, Debug, PartialEq, Eq, Structural)]
pub enum OrderType {
    Market,
    Limit,
    StopMarket,
    StopLimit,
}

/// Lifecycle state of an order.
#[derive(Clone, Copy, Debug, PartialEq, Eq, Structural)]
pub enum OrderStatus {
    Pending,
    Filled,
    PartiallyFilled,
    Cancelled,
    Rejected,
}

/// An order as carried through the core. Price and quantity are
/// fixed-point, scaled by 10^8.
#[derive(Clone, Debug)]
pub struct Order {
    pub id: String,
    pub symbol: String,
    pub side: OrderSide,
    pub order_type: OrderType,
    pub price: Option<i64>,
    pub quantity: i64,
    pub status: OrderStatus,
}

/// Colour theme of the user interface.
#[derive(Clone, Copy, Debug, PartialEq, Eq, Structural)]
pub enum Theme {
    Light,
    Dark,
}

/// User settings; the percentages are basis points (100 = 1%).
#[derive(Clone, Debug)]
pub struct UserSettings {
    pub default_risk_percent_bp: u32,
    pub max_daily_loss_bp: u32,
    pub theme: Theme,
}

impl Default for UserSettings {
    /// One percent default risk, five percent daily loss cap, dark theme.
    fn default() -> (r: Self)
        ensures
            r.default_risk_percent_bp == 100,
            r.max_daily_loss_bp == 500,
            r.theme == Theme::Dark,
    {
        UserSettings { default_risk_percent_bp: 100, max_daily_loss_bp: 500, theme: Theme::Dark }
    }
}

/// The settings a fresh installation starts with.
pub fn get_settings() -> (r: UserSettings)
    ensures
        r.default_risk_percent_bp == 100,
        r.max_daily_loss_bp == 500,
        r.theme == Theme::Dark,
{
    UserSettings::default()
}

/// When a price alarm fires.
#[derive(Clone, Copy, Debug, PartialEq, Eq, Structural)]
pub enum AlarmCondition {
    PriceAbove,
    PriceBelow,
    CrossVwap,
    CrossVal,
    CrossVah,
}

/// How a fired alarm is delivered.
#[derive(Clone, Copy, Debug, PartialEq, Eq, Structural)]
pub enum NotificationType {
    Visual,
    Sound,
    OsNative,
    Webhook,
}

/// A price alarm; `target_price` is fixed-point, scaled by 10^8.
#[derive(Clone, Debug)]
pub struct Alarm {
    pub id: String,
    pub symbol: String,
    pub condition: AlarmCondition,
    pub target_price: i64,
    pub is_active: bool,
    pub notification_type: NotificationType,
}

/// One OHLCV candle. Within a published series, timestamps are
/// strictly increasing and unique. Prices and volume are fixed-point,
/// scaled by 10^8.
#[derive(Clone, Copy, Debug, PartialEq, Eq, Structural)]
pub struct Kline {
    pub timestamp: i64,
    pub open: i64,
    pub high: i64,
    pub low: i64,
    pub close: i64,
    pub volume: i64,
}

impl DeepView for Kline {
    type V = Kline;

    open spec fn deep_view(&self) -> Kline {
        *self
    }
}

/// Market segment of a symbol.
#[derive(Clone, Copy, Debug, PartialEq, Eq, Structural)]
pub enum MarketCategory {
    Spot,
    Linear,
    Inverse,
}

/// The wire name of a market category.
pub open spec fn spec_category_str(c: MarketCategory) -> Seq<char> {
    match c {
        MarketCategory::Spot => "spot"@,
        MarketCategory::Linear => "linear"@,
        MarketCategory::Inverse => "inverse"@,
    }
}

/// How a category string from outside is read: the three known names
/// (case-insensitively) map to their category, anything else to Linear.
pub open spec fn spec_parse_category(s: Seq<char>) -> MarketCategory {
    if lower_of(s) == "spot"@ {
        MarketCategory::Spot
    } else if lower_of(s) == "inverse"@ {
        MarketCategory::Inverse
    } else {
        MarketCategory::Linear
    }
}

impl MarketCategory {
    /// The name used in REST query strings.
    pub fn as_str(&self) -> (r: &'static str)
        ensures
            r@ == spec_category_str(*self),
    {
        match self {
            MarketCategory::Spot => "spot",
            MarketCategory::Linear => "linear",
            MarketCategory::Inverse => "inverse",
        }
    }
}

impl Default for MarketCategory {
    fn default() -> (r: Self)
        ensures
            r == MarketCategory::Linear,
    {
        MarketCategory::Linear
    }
}

/// Reads an externally supplied category name; unknown strings default
/// to the linear market.
pub fn parse_category(s: &str) -> (r: MarketCategory)
    ensures
        r == spec_parse_category(s@),
{
    let l = ascii_lower(s);
    if str_eq(l.as_str(), "spot") {
        MarketCategory::Spot
    } else if str_eq(l.as_str(), "inverse") {
        MarketCategory::Inverse
    } else {
        MarketCategory::Linear
    }
}

/// Errors of the data-acquisition path.
#[derive(Clone, Debug)]
pub enum BybitError {
    /// Transport or timeout failure.
    NetworkError(String),
    /// Non-zero application return code from the exchange.
    ApiError(String),
    /// Malformed or unexpected response body.
    ParseError(String),
    /// Signing or credential failure.
    AuthError(String),
}

/// A ticker record; numeric fields are fixed-point, scaled by 10^8.
#[derive(Clone, Debug)]
pub struct TickerInfo {
    pub symbol: String,
    pub last_price: i64,
    pub price_24h_pcnt: i64,
    pub high_price_24h: i64,
    pub low_price_24h: i64,
    pub volume_24h: i64,
    pub turnover_24h: i64,
    pub category: MarketCategory,
    pub max_leverage: i64,
}

/// An instrument record; `max_leverage` is fixed-point, scaled by 10^8.
#[derive(Clone, Debug)]
pub struct InstrumentInfo {
    pub symbol: String,
    pub base_coin: String,
    pub quote_coin: String,
    pub status: String,
    pub category: MarketCategory,
    pub max_leverage: i64,
}

/// Instruments of all three market categories.
#[derive(Clone, Debug)]
pub struct AllInstruments {
    pub spot: Vec<InstrumentInfo>,
    pub linear: Vec<InstrumentInfo>,
    pub inverse: Vec<InstrumentInfo>,
}

/// One coin's balances, fixed-point, scaled by 10^8.
#[derive(Clone, Debug)]
pub struct CoinBalance {
    pub coin: String,
    pub equity: i64,
    pub available: i64,
    pub unrealized_pnl: i64,
}

/// Aggregated wallet balances. The totals are exact sums of the coin
/// entries and therefore wider than one coin's range.
#[derive(Clone, Debug)]
pub struct WalletBalance {
    pub total_equity: i128,
    pub available_balance: i128,
    pub coins: Vec<CoinBalance>,
}

/// Connection status towards the exchange.
#[derive(Clone, Debug)]
pub struct ConnectionState {
    pub is_connected: bool,
    pub is_demo: bool,
    pub exchange: String,
    pub error: Option<String>,
}

impl Default for ConnectionState {
    fn default() -> (r: Self)
        ensures
            !r.is_connected,
            !r.is_demo,
            r.exchange@ == Seq::<char>::empty(),
            r.error is None,
    {
        ConnectionState { is_connected: false, is_demo: false, exchange: String::new(), error: None }
    }
}

/// API credentials handed in from the boundary.
#[derive(Clone, Debug)]
pub struct ApiCredentials {
    pub api_key: String,
    pub api_secret: String,
    pub testnet: bool,
}

/// Description of one pluggable module, for listing.
#[derive(Clone, Debug)]
pub struct ModuleInfo {
    pub id: String,
    pub name: String,
    pub description: String,
    pub is_active: bool,
    pub can_trade: bool,
}

/// A language choice, for listing.
#[derive(Clone, Debug)]
pub struct LanguageInfo {
    pub code: String,
    pub native_name: String,
}

/// A stored chart drawing. `points` and `style` carry serialized
/// geometry that the core does not interpret.
#[derive(Clone, Debug)]
pub struct Drawing {
    pub id: String,
    pub symbol: String,
    pub interval: String,
    pub drawing_type: String,
    pub points: String,
    pub style: String,
    pub visible: bool,
    pub locked: bool,
    pub created_at: i64,
    pub updated_at: i64,
    pub name: Option<String>,
    pub group_id: Option<String>,
}

/// A folder of drawings.
#[derive(Clone, Debug)]
pub struct DrawingGroup {
    pub id: String,
    pub name: String,
    pub symbol: String,
    pub color: Option<String>,
    pub visible: bool,
    pub collapsed: bool,
    pub created_at: i64,
}

/// Presentation style of a drawing.
#[derive(Clone, Debug)]
pub struct DrawingStyle {
    pub color: String,
    pub line_width: u32,
    pub line_style: String,
    pub fill_color: Option<String>,
    pub text: Option<String>,
}

impl Default for DrawingStyle {
    fn default() -> (r: Self)
        ensures
            r.color@ == "#2962FF"@,
            r.line_width == 2,
            r.line_style@ == "solid"@,
            r.fill_color is None,
            r.text is None,
    {
        DrawingStyle {
            color: "#2962FF".to_owned(),
            line_width: 2,
            line_style: "solid".to_owned(),
            fill_color: None,
            text: None,
        }
    }
}

/// A request to save a drawing, as handed in from the boundary.
#[derive(Clone, Debug)]
pub struct SaveDrawingRequest {
    pub id: String,
    pub symbol: String,
    pub interval: String,
    pub drawing_type: String,
    pub points: String,
    pub style: String,
    pub visible: Option<bool>,
    pub locked: Option<bool>,
}

} // verus!
