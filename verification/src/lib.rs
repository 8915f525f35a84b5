//! Runtime core of a trading terminal: an event bus with lag-drop
//! broadcast semantics, shared application state, a module lifecycle
//! contract with a concrete stop-loss/breakeven module, and the
//! exchange data pipeline (request signing and windowed historical
//! candle backfill).

pub mod assoc;
pub mod bus;
pub mod exchange;
pub mod i18n;
pub mod jsonext;
pub mod klines;
pub mod models;
pub mod module;
pub mod sign;
pub mod state;
pub mod vault;
pub mod stop_loss;
pub mod strutil;
