//! The shared application state: live prices, positions, alarms,
//! settings and module-activity flags, together with the event
//! dispatcher through which every change is announced. Point reads
//! return copies, never live references; a write becomes visible in
//! the table before the corresponding event is published.

use vstd::prelude::*;
use crate::assoc::{assoc_get, assoc_upsert, assoc_view, unique_keys};
use crate::bus::{AppEvent, AppEventView, EventDispatcher};
use crate::models::{Alarm, Position, StandardTick, TickView, UserSettings};

verus! {

/// The shared state. The event dispatcher, positions, alarms and
/// settings are plain fields; the two keyed tables keep their keys
/// unique and are read through the accessors below.
pub struct AppState {
    /// The dispatcher through which state changes are announced.
    pub dispatcher: EventDispatcher,
    /// Open positions, observed (never mutated) by modules.
    pub positions: Vec<Position>,
    /// Active price alarms.
    pub alarms: Vec<Alarm>,
    /// User settings.
    pub settings: UserSettings,
    /// Latest tick per symbol; keys unique, read through `get_price`.
    pub live_prices: Vec<(String, StandardTick)>,
    /// Module-activity flags; keys unique, read through `is_module_active`.
    pub active_modules: Vec<(String, bool)>,
}

impl AppState {
    /// The live price table: the latest tick per symbol.
    pub open spec fn prices(self) -> Map<Seq<char>, TickView> {
        Map::new(
            |k: Seq<char>| assoc_view(self.live_prices@).contains_key(k),
            |k: Seq<char>| assoc_view(self.live_prices@)[k]@,
        )
    }

    /// The module-activity table.
    pub open spec fn modules(self) -> Map<Seq<char>, bool> {
        assoc_view(self.active_modules@)
    }

    /// The state's invariant: table keys are unique and the dispatcher
    /// is well formed.
    pub open spec fn wf(self) -> bool {
        &&& unique_keys(self.live_prices@)
        &&& unique_keys(self.active_modules@)
        &&& self.dispatcher.wf()
    }

    /// Creates a fresh state with an empty dispatcher of the default
    /// capacity and no data.
    pub fn new() -> (r: AppState)
        ensures
            r.wf(),
            r.prices() == Map::<Seq<char>, TickView>::empty(),
            r.modules() == Map::<Seq<char>, bool>::empty(),
            r.dispatcher.hist().len() == 0,
            r.dispatcher.subs() == 0,
            r.dispatcher.cap() == 1024,
            r.positions@.len() == 0,
            r.alarms@.len() == 0,
    {
        let r = AppState {
            dispatcher: EventDispatcher::new(1024),
            positions: Vec::new(),
            alarms: Vec::new(),
            settings: UserSettings::default(),
            live_prices: Vec::new(),
            active_modules: Vec::new(),
        };
        proof {
            assert(r.prices() =~= Map::<Seq<char>, TickView>::empty());
            assert(r.modules() =~= Map::<Seq<char>, bool>::empty());
        }
        r
    }

    /// Writes the latest tick for its symbol (replace or insert), then
    /// publishes `PriceUpdated`; the write is visible before the event
    /// exists, and the event is dropped if nobody subscribes.
    pub fn update_price(&mut self, tick: StandardTick)
        requires
            old(self).wf(),
            old(self).dispatcher.hist().len() < u64::MAX,
        ensures
            final(self).wf(),
            final(self).prices() == old(self).prices().insert(tick.symbol@, tick@),
            final(self).modules() == old(self).modules(),
            final(self).positions == old(self).positions,
            final(self).alarms == old(self).alarms,
            final(self).settings == old(self).settings,
            final(self).dispatcher.cap() == old(self).dispatcher.cap(),
            final(self).dispatcher.subs() == old(self).dispatcher.subs(),
            old(self).dispatcher.subs() > 0 ==> final(self).dispatcher.hist() == old(
                self,
            ).dispatcher.hist().push(AppEventView::PriceUpdated(tick@)),
            old(self).dispatcher.subs() == 0 ==> final(self).dispatcher.hist() == old(
                self,
            ).dispatcher.hist(),
    {
        let ghost old_prices = self.prices();
        let copy = tick.duplicate();
        let key = tick.symbol.clone();
        assoc_upsert(&mut self.live_prices, key, copy);
        proof {
            assert(self.prices() =~= old_prices.insert(tick.symbol@, tick@));
        }
        let _ = self.dispatcher.publish(AppEvent::PriceUpdated(tick));
    }

    /// The latest tick for `symbol`, as a copy, if one was written.
    pub fn get_price(&self, symbol: &str) -> (r: Option<StandardTick>)
        ensures
            match r {
                Some(t) => self.prices().contains_key(symbol@) && t@ == self.prices()[symbol@],
                None => !self.prices().contains_key(symbol@),
            },
    {
        match assoc_get(&self.live_prices, symbol) {
            Some(t) => Some(t.duplicate()),
            None => None,
        }
    }

    /// Records whether a module is active, then publishes
    /// `ModuleStateChanged`; the event is dropped if nobody subscribes.
    pub fn set_module_active(&mut self, module_id: &str, is_active: bool)
        requires
            old(self).wf(),
            old(self).dispatcher.hist().len() < u64::MAX,
        ensures
            final(self).wf(),
            final(self).modules() == old(self).modules().insert(module_id@, is_active),
            final(self).prices() == old(self).prices(),
            final(self).positions == old(self).positions,
            final(self).alarms == old(self).alarms,
            final(self).settings == old(self).settings,
            final(self).dispatcher.cap() == old(self).dispatcher.cap(),
            final(self).dispatcher.subs() == old(self).dispatcher.subs(),
            old(self).dispatcher.subs() > 0 ==> final(self).dispatcher.hist() == old(
                self,
            ).dispatcher.hist().push(
                (AppEventView::ModuleStateChanged { module_id: module_id@, is_active }),
            ),
            old(self).dispatcher.subs() == 0 ==> final(self).dispatcher.hist() == old(
                self,
            ).dispatcher.hist(),
    {
        let ghost old_prices = self.prices();
        assoc_upsert(&mut self.active_modules, symbol_owned(module_id), is_active);
        proof {
            assert(self.prices() =~= old_prices);
        }
        let _ = self.dispatcher.publish(
            AppEvent::ModuleStateChanged { module_id: symbol_owned(module_id), is_active },
        );
    }

    /// Whether a module is active; unknown modules are inactive.
    pub fn is_module_active(&self, module_id: &str) -> (r: bool)
        ensures
            r == if self.modules().contains_key(module_id@) {
                self.modules()[module_id@]
            } else {
                false
            },
    {
        match assoc_get(&self.active_modules, module_id) {
            Some(b) => *b,
            None => false,
        }
    }
}

/// An owned copy of a borrowed string.
pub fn symbol_owned(s: &str) -> (r: String)
    ensures
        r@ == s@,
{
    s.to_owned()
}

/// Law: the price written by `update_price` is exactly what
/// `get_price` returns for the same symbol immediately afterwards.
pub proof fn lemma_update_then_get(m: Map<Seq<char>, TickView>, sym: Seq<char>, t: TickView)
    ensures
        m.insert(sym, t).contains_key(sym),
        m.insert(sym, t)[sym] == t,
{
}

} // verus!
