//! The smart stop-loss module: on every tick, while active, it checks
//! each open position on the tick's symbol for two independent
//! conditions — an automatic breakeven threshold and a crossed stop —
//! and raises a signal for each hit. Evaluation is stateless: no
//! per-position memory is kept, so a condition that holds keeps firing
//! on every tick until the position's fields change.

use vstd::prelude::*;
use crate::models::{Position, PositionSide, StandardTick};
use crate::module::{ModuleError, ModuleSignal, ModuleSignalView, TradingModule};
use crate::strutil::str_eq;

verus! {

/// Scale of the breakeven threshold: 10_000 means one full R (the
/// distance between entry and stop).
pub const THRESHOLD_SCALE: u32 = 10_000;

/// The risk unit of a position: the distance between entry and stop.
pub open spec fn risk_of(entry: int, stop: int) -> int {
    if entry >= stop {
        entry - stop
    } else {
        stop - entry
    }
}

/// Whether the price has moved `threshold` (scaled by
/// `THRESHOLD_SCALE`) times the risk past the entry in the profitable
/// direction.
pub open spec fn breakeven_hit(
    side: PositionSide,
    entry: int,
    stop: int,
    threshold: int,
    price: int,
) -> bool {
    match side {
        PositionSide::Long => (price - entry) * (THRESHOLD_SCALE as int) >= risk_of(entry, stop)
            * threshold,
        PositionSide::Short => (entry - price) * (THRESHOLD_SCALE as int) >= risk_of(entry, stop)
            * threshold,
    }
}

/// Whether the stop price is crossed.
pub open spec fn stop_hit(side: PositionSide, stop: int, price: int) -> bool {
    match side {
        PositionSide::Long => price <= stop,
        PositionSide::Short => price >= stop,
    }
}

/// The stop a position risks against: its stop, or its entry when none
/// is set.
pub open spec fn stop_or_entry(p: Position) -> int {
    match p.stop_loss {
        Some(s) => s as int,
        None => p.entry_price as int,
    }
}

/// The signals one position contributes on a tick: a breakeven signal
/// if automatic breakeven is on and the threshold is reached, then a
/// stop signal if a stop is set and crossed; positions on other
/// symbols contribute nothing.
pub open spec fn pos_signals(
    p: Position,
    symbol: Seq<char>,
    price: int,
    auto_be: bool,
    threshold: int,
) -> Seq<ModuleSignalView> {
    if p.symbol@ == symbol {
        (if auto_be && breakeven_hit(
            p.side,
            p.entry_price as int,
            stop_or_entry(p),
            threshold,
            price,
        ) {
            seq![ModuleSignalView::BreakevenReached { position_id: p.id@ }]
        } else {
            Seq::empty()
        }) + (if p.stop_loss matches Some(s) && stop_hit(p.side, s as int, price) {
            seq![ModuleSignalView::StopLossHit { position_id: p.id@ }]
        } else {
            Seq::empty()
        })
    } else {
        Seq::empty()
    }
}

/// The signals a whole position list contributes, in list order.
pub open spec fn tick_signals(
    ps: Seq<Position>,
    symbol: Seq<char>,
    price: int,
    auto_be: bool,
    threshold: int,
) -> Seq<ModuleSignalView>
    decreases ps.len(),
{
    if ps.len() == 0 {
        Seq::empty()
    } else {
        tick_signals(ps.drop_last(), symbol, price, auto_be, threshold) + pos_signals(
            ps.last(),
            symbol,
            price,
            auto_be,
            threshold,
        )
    }
}

/// The smart stop-loss module.
pub struct StopLossModule {
    is_active: bool,
    initialized: bool,
    auto_breakeven: bool,
    /// Breakeven threshold, scaled by `THRESHOLD_SCALE`.
    breakeven_threshold: u32,
}

impl StopLossModule {
    /// Whether automatic breakeven is on, for contracts.
    pub closed spec fn auto_breakeven_spec(&self) -> bool {
        self.auto_breakeven
    }

    /// The breakeven threshold (scaled by `THRESHOLD_SCALE`), for
    /// contracts.
    pub closed spec fn threshold_spec(&self) -> int {
        self.breakeven_threshold as int
    }

    /// A new module: inactive, uninitialized, automatic breakeven on
    /// with a threshold of one full R.
    pub fn new() -> (r: StopLossModule)
        ensures
            !r.active_spec(),
            !r.initialized_spec(),
            r.auto_breakeven_spec(),
            r.threshold_spec() == THRESHOLD_SCALE,
    {
        StopLossModule {
            is_active: false,
            initialized: false,
            auto_breakeven: true,
            breakeven_threshold: THRESHOLD_SCALE,
        }
    }

    /// Whether the position has travelled the breakeven threshold on
    /// the profitable side at the given price.
    pub fn check_breakeven(&self, position: &Position, current_price: i64) -> (r: bool)
        ensures
            r == breakeven_hit(
                position.side,
                position.entry_price as int,
                stop_or_entry(*position),
                self.threshold_spec(),
                current_price as int,
            ),
    {
        let entry = position.entry_price;
        let stop = match position.stop_loss {
            Some(s) => s,
            None => entry,
        };
        let risk: i128 = if entry >= stop {
            entry as i128 - stop as i128
        } else {
            stop as i128 - entry as i128
        };
        let thr = self.breakeven_threshold as i128;
        proof {
            assert(risk * thr <= i128::MAX && risk * thr >= i128::MIN) by (nonlinear_arith)
                requires
                    0 <= risk <= u64::MAX,
                    0 <= thr <= u32::MAX,
            ;
        }
        let scale = THRESHOLD_SCALE as i128;
        match position.side {
            PositionSide::Long => {
                (current_price as i128 - entry as i128) * scale >= risk * thr
            },
            PositionSide::Short => {
                (entry as i128 - current_price as i128) * scale >= risk * thr
            },
        }
    }
}

impl Default for StopLossModule {
    fn default() -> (r: Self)
        ensures
            !r.active_spec(),
            !r.initialized_spec(),
            r.auto_breakeven_spec(),
            r.threshold_spec() == THRESHOLD_SCALE,
    {
        StopLossModule::new()
    }
}

impl TradingModule for StopLossModule {
    closed spec fn active_spec(&self) -> bool {
        self.is_active
    }

    closed spec fn initialized_spec(&self) -> bool {
        self.initialized
    }

    fn id(&self) -> (r: &'static str)
        ensures
            r@ == "stop_loss"@,
    {
        "stop_loss"
    }

    fn name(&self) -> (r: &'static str)
        ensures
            r@ == "Smart Stop-Loss"@,
    {
        "Smart Stop-Loss"
    }

    fn description(&self) -> &'static str {
        "Intelligent stop-loss management with auto-breakeven"
    }

    fn initialize(&mut self) -> (r: Result<(), ModuleError>)
        ensures
            r is Ok,
            final(self).initialized_spec(),
            final(self).active_spec() == old(self).active_spec(),
            final(self).auto_breakeven_spec() == old(self).auto_breakeven_spec(),
            final(self).threshold_spec() == old(self).threshold_spec(),
    {
        self.initialized = true;
        Ok(())
    }

    fn shutdown(&mut self) -> (r: Result<(), ModuleError>)
        ensures
            r is Ok,
            !final(self).initialized_spec(),
            final(self).active_spec() == old(self).active_spec(),
    {
        self.initialized = false;
        Ok(())
    }

    /// While active and initialized, raises exactly the signals of
    /// `tick_signals` over the given positions; while inactive it is a
    /// no-op, though it is still called.
    fn on_price_tick(&mut self, tick: &StandardTick, positions: &Vec<Position>) -> (r: Result<
        Vec<ModuleSignal>,
        ModuleError,
    >)
        ensures
            *final(self) == *old(self),
            !old(self).active_spec() ==> (r matches Ok(v) && v@.len() == 0),
            old(self).active_spec() && !old(self).initialized_spec() ==> (r matches Err(e)
                && e is InitializationFailed),
            old(self).active_spec() && old(self).initialized_spec() ==> (r matches Ok(v)
                && v.deep_view() == tick_signals(
                positions@,
                tick.symbol@,
                tick.price as int,
                old(self).auto_breakeven_spec(),
                old(self).threshold_spec(),
            )),
    {
        if !self.is_active {
            return Ok(Vec::new());
        }
        if !self.initialized {
            return Err(ModuleError::InitializationFailed("module not initialized".to_owned()));
        }
        let ghost sym = tick.symbol@;
        let ghost price = tick.price as int;
        let ghost be = self.auto_breakeven;
        let ghost thr = self.threshold_spec();
        let mut out: Vec<ModuleSignal> = Vec::new();
        let n = positions.len();
        let mut i: usize = 0;
        proof {
            assert(out.deep_view() =~= tick_signals(positions@.take(0), sym, price, be, thr));
        }
        while i < n
            invariant
                n == positions@.len(),
                i <= n,
                sym == tick.symbol@,
                price == tick.price as int,
                be == self.auto_breakeven,
                thr == self.threshold_spec(),
                *self == *old(self),
                out.deep_view() == tick_signals(positions@.take(i as int), sym, price, be, thr),
            decreases n - i,
        {
            let p = &positions[i];
            let ghost pp = positions@[i as int];
            let ghost out0 = out.deep_view();
            let ghost be_part = if be && breakeven_hit(
                pp.side,
                pp.entry_price as int,
                stop_or_entry(pp),
                thr,
                price,
            ) {
                seq![ModuleSignalView::BreakevenReached { position_id: pp.id@ }]
            } else {
                Seq::<ModuleSignalView>::empty()
            };
            if str_eq(p.symbol.as_str(), tick.symbol.as_str()) {
                if self.auto_breakeven && self.check_breakeven(p, tick.price) {
                    out.push(ModuleSignal::BreakevenReached { position_id: p.id.clone() });
                    proof {
                        assert(out.deep_view() =~= out0 + be_part);
                    }
                }
                let ghost out1 = out.deep_view();
                proof {
                    assert(out1 =~= out0 + be_part);
                }
                match p.stop_loss {
                    Some(stop) => {
                        let crossed = match p.side {
                            PositionSide::Long => tick.price <= stop,
                            PositionSide::Short => tick.price >= stop,
                        };
                        if crossed {
                            out.push(ModuleSignal::StopLossHit { position_id: p.id.clone() });
                            proof {
                                assert(out.deep_view() =~= out1.push(
                                    ModuleSignalView::StopLossHit { position_id: pp.id@ },
                                ));
                            }
                        }
                    },
                    None => {},
                }
                proof {
                    assert(out.deep_view() =~= out0 + pos_signals(pp, sym, price, be, thr));
                }
            } else {
                proof {
                    assert(pos_signals(pp, sym, price, be, thr) == Seq::<ModuleSignalView>::empty());
                    assert(out.deep_view() =~= out0 + pos_signals(pp, sym, price, be, thr));
                }
            }
            proof {
                assert(positions@.take(i + 1 as int).drop_last() =~= positions@.take(i as int));
                assert(positions@.take(i + 1 as int).last() == pp);
            }
            i = i + 1;
        }
        proof {
            assert(positions@.take(n as int) =~= positions@);
        }
        Ok(out)
    }

    fn on_balance_change(&mut self, symbol: &str, new_balance: i64) -> (r: Result<
        Vec<ModuleSignal>,
        ModuleError,
    >)
        ensures
            *final(self) == *old(self),
            r matches Ok(v) && v@.len() == 0,
    {
        Ok(Vec::new())
    }

    fn on_position_opened(&mut self, position: &Position) -> (r: Result<
        Vec<ModuleSignal>,
        ModuleError,
    >)
        ensures
            *final(self) == *old(self),
            r matches Ok(v) && v@.len() == 0,
    {
        Ok(Vec::new())
    }

    fn on_position_closed(&mut self, position: &Position, pnl: i64) -> (r: Result<
        Vec<ModuleSignal>,
        ModuleError,
    >)
        ensures
            *final(self) == *old(self),
            r matches Ok(v) && v@.len() == 0,
    {
        Ok(Vec::new())
    }

    /// This module may emit orders: the explicit opt-in.
    fn can_execute_orders(&self) -> (r: bool)
        ensures
            r == true,
    {
        true
    }

    fn is_active(&self) -> (r: bool)
        ensures
            r == self.active_spec(),
    {
        self.is_active
    }

    fn set_active(&mut self, active: bool)
        ensures
            final(self).active_spec() == active,
            final(self).initialized_spec() == old(self).initialized_spec(),
            final(self).auto_breakeven_spec() == old(self).auto_breakeven_spec(),
            final(self).threshold_spec() == old(self).threshold_spec(),
    {
        self.is_active = active;
    }
}

} // verus!
