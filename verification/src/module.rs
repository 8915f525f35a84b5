//! The lifecycle and callback contract every strategy module
//! implements. A module starts uninitialized and inactive, is
//! initialized once, may be toggled active and inactive any number of
//! times, and is shut down at most once. The registry invokes every
//! callback regardless of the activity flag; an inactive module must
//! return early with no effect, so toggling stays cheap.

use vstd::prelude::*;
use crate::models::{Position, StandardTick};

verus! {

/// Typed failure of a module callback.
#[derive(Clone, Debug)]
pub enum ModuleError {
    InitializationFailed(String),
    ExecutionFailed(String),
    Unauthorized(String),
    ConnectionError(String),
    Other(String),
}

/// What a module is allowed to do.
#[derive(Clone, Copy, Debug, PartialEq, Eq, Structural)]
pub enum ModulePermission {
    /// May only read prices, order books and the like.
    ReadOnly,
    /// May run computations and draw on charts.
    Analysis,
    /// May send orders.
    Trading,
    /// May do everything.
    Full,
}

/// A logical event a module raises in reaction to a callback;
/// execution against the exchange is outside this core.
#[derive(Clone, Debug)]
pub enum ModuleSignal {
    /// Profit reached the breakeven threshold: the stop should move to
    /// the entry price.
    BreakevenReached { position_id: String },
    /// The stop price was crossed: the position should be closed.
    StopLossHit { position_id: String },
}

/// The mathematical value of a signal.
pub enum ModuleSignalView {
    BreakevenReached { position_id: Seq<char> },
    StopLossHit { position_id: Seq<char> },
}

impl View for ModuleSignal {
    type V = ModuleSignalView;

    open spec fn view(&self) -> ModuleSignalView {
        match self {
            ModuleSignal::BreakevenReached { position_id } => ModuleSignalView::BreakevenReached {
                position_id: position_id@,
            },
            ModuleSignal::StopLossHit { position_id } => ModuleSignalView::StopLossHit {
                position_id: position_id@,
            },
        }
    }
}

impl DeepView for ModuleSignal {
    type V = ModuleSignalView;

    open spec fn deep_view(&self) -> ModuleSignalView {
        self@
    }
}

/// The contract every strategy module implements. Callbacks are
/// invoked whether or not the module is active; an inactive module
/// must change nothing and raise no signals.
pub trait TradingModule: Sized {
    /// Whether the module is active, for contracts.
    spec fn active_spec(&self) -> bool;

    /// Whether the module has been initialized, for contracts.
    spec fn initialized_spec(&self) -> bool;

    /// Stable identifier of the module.
    fn id(&self) -> &'static str;

    /// Human-readable name.
    fn name(&self) -> &'static str;

    /// Human-readable description.
    fn description(&self) -> &'static str;

    /// Prepares the module. Once this has failed the module must not
    /// receive further callbacks.
    fn initialize(&mut self) -> (r: Result<(), ModuleError>)
        ensures
            r is Ok ==> final(self).initialized_spec(),
            final(self).active_spec() == old(self).active_spec(),
    ;

    /// Releases the module; called at most once, before disposal.
    fn shutdown(&mut self) -> (r: Result<(), ModuleError>)
        ensures
            r is Ok ==> !final(self).initialized_spec(),
    ;

    /// Reacts to a fresh price tick, seeing the open positions.
    fn on_price_tick(&mut self, tick: &StandardTick, positions: &Vec<Position>) -> (r: Result<
        Vec<ModuleSignal>,
        ModuleError,
    >)
        ensures
            !old(self).active_spec() ==> *final(self) == *old(self) && (r matches Ok(v)
                && v@.len() == 0),
    ;

    /// Reacts to a balance change.
    fn on_balance_change(&mut self, symbol: &str, new_balance: i64) -> (r: Result<
        Vec<ModuleSignal>,
        ModuleError,
    >)
        ensures
            !old(self).active_spec() ==> *final(self) == *old(self) && (r matches Ok(v)
                && v@.len() == 0),
    ;

    /// Reacts to a newly opened position.
    fn on_position_opened(&mut self, position: &Position) -> (r: Result<
        Vec<ModuleSignal>,
        ModuleError,
    >)
        ensures
            !old(self).active_spec() ==> *final(self) == *old(self) && (r matches Ok(v)
                && v@.len() == 0),
    ;

    /// Reacts to a closed position and its profit or loss.
    fn on_position_closed(&mut self, position: &Position, pnl: i64) -> (r: Result<
        Vec<ModuleSignal>,
        ModuleError,
    >)
        ensures
            !old(self).active_spec() ==> *final(self) == *old(self) && (r matches Ok(v)
                && v@.len() == 0),
    ;

    /// Whether any order-placing path may trust this module to emit
    /// orders: false unless the module explicitly opts in.
    fn can_execute_orders(&self) -> bool {
        false
    }

    /// Whether the module is active.
    fn is_active(&self) -> (r: bool)
        ensures
            r == self.active_spec(),
    ;

    /// Activates or deactivates the module.
    fn set_active(&mut self, active: bool)
        ensures
            final(self).active_spec() == active,
            final(self).initialized_spec() == old(self).initialized_spec(),
    ;
}

} // verus!
