//! The event dispatcher: a multi-subscriber broadcast channel with a
//! bounded buffer and lag-drop semantics. Every published event enters
//! a single global order (the history); each subscriber owns a cursor
//! into that order. A subscriber that falls more than `capacity`
//! events behind loses the oldest unread events and is told how many
//! it missed; it never blocks the publisher, and the buffer never
//! grows past the capacity.

use vstd::prelude::*;
use crate::models::{StandardTick, TickView};

verus! {

/// Events carried by the dispatcher. Monetary amounts are fixed-point,
/// scaled by 10^8.
#[derive(Clone, Debug)]
pub enum AppEvent {
    /// A fresh price tick.
    PriceUpdated(StandardTick),
    /// A balance moved.
    BalanceChanged { symbol: String, balance: i64 },
    /// A position was opened.
    PositionOpened { position_id: String },
    /// A position was closed with the given profit or loss.
    PositionClosed { position_id: String, pnl: i64 },
    /// An alarm fired.
    AlarmTriggered { alarm_id: String },
    /// A module was switched on or off.
    ModuleStateChanged { module_id: String, is_active: bool },
}

/// The mathematical value of an event.
pub enum AppEventView {
    PriceUpdated(TickView),
    BalanceChanged { symbol: Seq<char>, balance: int },
    PositionOpened { position_id: Seq<char> },
    PositionClosed { position_id: Seq<char>, pnl: int },
    AlarmTriggered { alarm_id: Seq<char> },
    ModuleStateChanged { module_id: Seq<char>, is_active: bool },
}

impl View for AppEvent {
    type V = AppEventView;

    open spec fn view(&self) -> AppEventView {
        match self {
            AppEvent::PriceUpdated(t) => AppEventView::PriceUpdated(t@),
            AppEvent::BalanceChanged { symbol, balance } => AppEventView::BalanceChanged {
                symbol: symbol@,
                balance: *balance as int,
            },
            AppEvent::PositionOpened { position_id } => AppEventView::PositionOpened {
                position_id: position_id@,
            },
            AppEvent::PositionClosed { position_id, pnl } => AppEventView::PositionClosed {
                position_id: position_id@,
                pnl: *pnl as int,
            },
            AppEvent::AlarmTriggered { alarm_id } => AppEventView::AlarmTriggered {
                alarm_id: alarm_id@,
            },
            AppEvent::ModuleStateChanged { module_id, is_active } => {
                AppEventView::ModuleStateChanged { module_id: module_id@, is_active: *is_active }
            },
        }
    }
}

impl DeepView for AppEvent {
    type V = AppEventView;

    open spec fn deep_view(&self) -> AppEventView {
        self@
    }
}

impl AppEvent {
    /// A copy of the event with the same value.
    pub fn duplicate(&self) -> (r: AppEvent)
        ensures
            r@ == self@,
    {
        match self {
            AppEvent::PriceUpdated(t) => AppEvent::PriceUpdated(t.duplicate()),
            AppEvent::BalanceChanged { symbol, balance } => AppEvent::BalanceChanged {
                symbol: symbol.clone(),
                balance: *balance,
            },
            AppEvent::PositionOpened { position_id } => AppEvent::PositionOpened {
                position_id: position_id.clone(),
            },
            AppEvent::PositionClosed { position_id, pnl } => AppEvent::PositionClosed {
                position_id: position_id.clone(),
                pnl: *pnl,
            },
            AppEvent::AlarmTriggered { alarm_id } => AppEvent::AlarmTriggered {
                alarm_id: alarm_id.clone(),
            },
            AppEvent::ModuleStateChanged { module_id, is_active } => {
                AppEvent::ModuleStateChanged { module_id: module_id.clone(), is_active: *is_active }
            },
        }
    }
}

/// Returned by a failed publish, carrying the event back.
#[derive(Debug)]
pub struct SendError(pub AppEvent);

/// What one read from a subscriber handle yields.
pub enum RecvOutcome {
    /// The next event in global order.
    Event(AppEvent),
    /// The subscriber fell behind and missed this many events; it
    /// resumes at the oldest event still buffered.
    Lagged(u64),
    /// Nothing new has been published.
    Empty,
}

/// The mathematical value of a read outcome.
pub enum RecvOutcomeView {
    Event(AppEventView),
    Lagged(int),
    Empty,
}

impl View for RecvOutcome {
    type V = RecvOutcomeView;

    open spec fn view(&self) -> RecvOutcomeView {
        match self {
            RecvOutcome::Event(e) => RecvOutcomeView::Event(e@),
            RecvOutcome::Lagged(n) => RecvOutcomeView::Lagged(*n as int),
            RecvOutcome::Empty => RecvOutcomeView::Empty,
        }
    }
}

/// A subscriber handle: a cursor into the dispatcher's global order.
pub struct Receiver {
    next_seq: u64,
}

impl Receiver {
    /// The sequence number of the next event this subscriber will read.
    pub fn cursor(&self) -> (r: u64)
        ensures
            r as int == self.cur(),
    {
        self.next_seq
    }

    /// The cursor, for contracts.
    pub closed spec fn cur(self) -> int {
        self.next_seq as int
    }
}

/// The event dispatcher. All modules receive their data through one of
/// these.
pub struct EventDispatcher {
    capacity: usize,
    /// The most recent events, oldest first; never longer than
    /// `capacity`.
    buffer: Vec<AppEvent>,
    /// Sequence number of `buffer[0]`: how many events have been
    /// dropped from the front of the history.
    base_seq: u64,
    n_receivers: usize,
    /// Every event ever published, in publish order.
    history: Ghost<Seq<AppEventView>>,
}

impl EventDispatcher {
    /// Every event ever published, in the one global order.
    pub closed spec fn hist(self) -> Seq<AppEventView> {
        self.history@
    }

    /// Sequence number of the oldest event still buffered.
    pub closed spec fn base(self) -> int {
        self.base_seq as int
    }

    pub closed spec fn cap(self) -> int {
        self.capacity as int
    }

    pub closed spec fn subs(self) -> int {
        self.n_receivers as int
    }

    pub closed spec fn buffered(self) -> int {
        self.buffer@.len() as int
    }

    /// The dispatcher's invariant: the buffer is the tail of the
    /// history, holds at most `capacity` events, and the sequence
    /// numbers fit their counters.
    pub closed spec fn wf(self) -> bool {
        &&& self.cap() >= 1
        &&& self.buffer@.len() <= self.cap()
        &&& self.base() + self.buffer@.len() == self.hist().len()
        &&& self.hist().len() <= u64::MAX
        &&& self.buffer.deep_view() == self.hist().skip(self.base())
    }

    /// Creates a dispatcher that buffers at most `capacity` events.
    pub fn new(capacity: usize) -> (r: EventDispatcher)
        requires
            capacity >= 1,
        ensures
            r.wf(),
            r.hist().len() == 0,
            r.cap() == capacity,
            r.subs() == 0,
    {
        let r = EventDispatcher {
            capacity,
            buffer: Vec::new(),
            base_seq: 0,
            n_receivers: 0,
            history: Ghost(Seq::empty()),
        };
        proof {
            assert(r.buffer.deep_view() =~= r.hist().skip(0));
        }
        r
    }

    /// How many events have been published so far.
    pub fn total_published(&self) -> (r: u64)
        requires
            self.wf(),
        ensures
            r == self.hist().len(),
    {
        self.base_seq + (self.buffer.len() as u64)
    }

    /// Publishes one event: appends it to the global order, dropping
    /// the oldest buffered event if the buffer is full, and reports to
    /// how many subscribers it was made visible. With no subscribers
    /// the event is returned unsent and nothing changes.
    pub fn publish(&mut self, event: AppEvent) -> (r: Result<usize, SendError>)
        requires
            old(self).wf(),
            old(self).hist().len() < u64::MAX,
        ensures
            final(self).wf(),
            final(self).cap() == old(self).cap(),
            final(self).subs() == old(self).subs(),
            old(self).subs() == 0 ==> {
                &&& r matches Err(e) && e.0@ == event@
                &&& final(self).hist() == old(self).hist()
                &&& final(self).base() == old(self).base()
            },
            old(self).subs() > 0 ==> {
                &&& r matches Ok(n) && n as int == old(self).subs()
                &&& final(self).hist() == old(self).hist().push(event@)
                &&& final(self).buffered() <= final(self).cap()
                &&& final(self).base() == if old(self).buffered() == old(self).cap() {
                    old(self).base() + 1
                } else {
                    old(self).base()
                }
            },
    {
        if self.n_receivers == 0 {
            return Err(SendError(event));
        }
        let ghost old_self = *self;
        let ghost ev = event@;
        if self.buffer.len() == self.capacity {
            self.buffer.remove(0);
            self.base_seq = self.base_seq + 1;
            proof {
                assert(self.buffer@ =~= old_self.buffer@.skip(1));
            }
        }
        self.buffer.push(event);
        proof {
            self.history@ = old_self.hist().push(ev);
            let nb = self.buffer@;
            let nh = self.hist();
            let b = self.base();
            let off = b - old_self.base();
            assert forall|i: int| 0 <= i < nb.len() implies nb[i].deep_view() == nh.skip(b)[i] by {
                if i < nb.len() - 1 {
                    assert(nb[i] == old_self.buffer@[i + off]);
                    assert(old_self.buffer.deep_view()[i + off] == old_self.hist().skip(
                        old_self.base(),
                    )[i + off]);
                } else {
                    assert(nb[i] == event);
                }
            }
            assert(self.buffer.deep_view() =~= nh.skip(b));
        }
        Ok(self.n_receivers)
    }

    /// Creates a new subscriber. It will see every event published
    /// after this call and none published before.
    pub fn subscribe(&mut self) -> (rx: Receiver)
        requires
            old(self).wf(),
            old(self).subs() < usize::MAX,
        ensures
            final(self).wf(),
            final(self).hist() == old(self).hist(),
            final(self).base() == old(self).base(),
            final(self).cap() == old(self).cap(),
            final(self).subs() == old(self).subs() + 1,
            rx.cur() == old(self).hist().len(),
    {
        self.n_receivers = self.n_receivers + 1;
        Receiver { next_seq: self.base_seq + (self.buffer.len() as u64) }
    }

    /// What a read at cursor `c` yields, and the cursor afterwards: the
    /// history event at `c` if it is still buffered, a lag report that
    /// jumps the cursor forward if the buffer has moved past `c`, and
    /// nothing if `c` is at the end of the history.
    pub open spec fn recv_spec(self, c: int) -> (RecvOutcomeView, int) {
        if c < self.base() {
            (RecvOutcomeView::Lagged(self.base() - c), self.base())
        } else if c == self.hist().len() {
            (RecvOutcomeView::Empty, c)
        } else {
            (RecvOutcomeView::Event(self.hist()[c]), c + 1)
        }
    }

    /// Reads the next event for the given subscriber.
    pub fn recv(&self, rx: &mut Receiver) -> (r: RecvOutcome)
        requires
            self.wf(),
            old(rx).cur() <= self.hist().len(),
        ensures
            final(rx).cur() <= self.hist().len(),
            (r@, final(rx).cur()) == self.recv_spec(old(rx).cur()),
    {
        if rx.next_seq < self.base_seq {
            let missed = self.base_seq - rx.next_seq;
            rx.next_seq = self.base_seq;
            RecvOutcome::Lagged(missed)
        } else {
            let idx = rx.next_seq - self.base_seq;
            if idx as usize >= self.buffer.len() {
                RecvOutcome::Empty
            } else {
                let e = self.buffer[idx as usize].duplicate();
                proof {
                    assert(self.hist().skip(self.base())[idx as int] == self.hist()[old(
                        rx,
                    ).cur()]);
                }
                rx.next_seq = rx.next_seq + 1;
                RecvOutcome::Event(e)
            }
        }
    }
}

impl Default for EventDispatcher {
    /// A dispatcher with the default capacity of 1024 buffered events.
    fn default() -> (r: Self)
        ensures
            r.wf(),
            r.hist().len() == 0,
            r.cap() == 1024,
            r.subs() == 0,
    {
        EventDispatcher::new(1024)
    }
}

/// Law: delivery is exactly-once and in the one global order. A read
/// at cursor `c` yields an event exactly when `c` lies between the
/// oldest buffered event and the end of the history; the event is the
/// history entry at `c` itself; and the cursor never moves backwards
/// and moves strictly past `c` whenever an event is yielded, so no
/// cursor yields the same history entry twice, and any two subscribers
/// that both receive two events receive them in the same relative
/// order.
pub proof fn lemma_recv_exactly_once(b: EventDispatcher, c: int)
    requires
        b.wf(),
        0 <= c <= b.hist().len(),
    ensures
        (b.recv_spec(c).0 is Event) <==> (b.base() <= c < b.hist().len()),
        b.base() <= c < b.hist().len() ==> b.recv_spec(c).0 == RecvOutcomeView::Event(
            b.hist()[c],
        ) && b.recv_spec(c).1 == c + 1,
        b.recv_spec(c).1 >= c,
        b.recv_spec(c).0 is Event ==> b.recv_spec(c).1 > c,
{
}

/// Law: the buffer is bounded by the capacity whatever is published,
/// so a subscriber that never reads costs nothing beyond the fixed
/// buffer; old events are dropped instead.
pub proof fn lemma_bus_bounded(b: EventDispatcher)
    requires
        b.wf(),
    ensures
        b.buffered() <= b.cap(),
{
}

} // verus!
