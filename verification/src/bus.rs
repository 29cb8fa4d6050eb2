//! Event bus: a bounded broadcast channel with lag detection.
//!
//! Every subscriber has a read cursor of its own and a backlog of the same
//! fixed depth. Publishing never waits: where a subscriber's backlog is
//! full, its oldest unread event makes room, and the subscriber's next read
//! reports the gap before delivery goes on with the oldest event that is
//! still buffered.

use crate::types::Message;
use std::collections::VecDeque;
use vstd::prelude::*;

verus! {

/// Depth of each subscriber's backlog on the device.
pub const BACKLOG_DEPTH: usize = 8;

/// What a read hands to a subscriber.
#[derive(Clone, Copy, Debug, PartialEq, Eq, Structural)]
pub enum Delivery {
    /// Events were dropped since the last read. The count saturates.
    Lagged(u64),
    /// The next event, in publish order.
    Message(Message),
}

/// One subscription as the contracts see it: the events that wait to be
/// read, oldest first, and how many were dropped since the last lag report.
pub struct Cursor {
    pub pending: Seq<Message>,
    pub missed: nat,
}

/// The bus as the contracts see it.
pub struct BusView {
    pub depth: nat,
    pub subscribers: Seq<Cursor>,
}

/// A subscription that has seen nothing yet.
pub open spec fn fresh() -> Cursor {
    Cursor { pending: Seq::empty(), missed: 0 }
}

/// A count of dropped events as the counter holds it.
pub open spec fn capped(n: int) -> nat {
    if n > u64::MAX {
        u64::MAX as nat
    } else {
        n as nat
    }
}

/// A subscription after `event` was published: the event joins the
/// backlog, of which only the newest `depth` events stay; the others are
/// counted as missed.
pub open spec fn published_to(c: Cursor, event: Message, depth: nat) -> Cursor {
    let queued = c.pending.push(event);
    if queued.len() <= depth {
        Cursor { pending: queued, missed: c.missed }
    } else {
        let dropped = queued.len() - depth;
        Cursor { pending: queued.skip(dropped), missed: capped(c.missed + dropped) }
    }
}

/// What the next read of a subscription returns: a pending lag report
/// first, else the oldest buffered event, else nothing.
pub open spec fn next_delivery(c: Cursor) -> Option<Delivery> {
    if c.missed > 0 {
        Some(Delivery::Lagged(c.missed as u64))
    } else if c.pending.len() > 0 {
        Some(Delivery::Message(c.pending[0]))
    } else {
        None
    }
}

/// A subscription after that read.
pub open spec fn after_read(c: Cursor) -> Cursor {
    if c.missed > 0 {
        Cursor { pending: c.pending, missed: 0 }
    } else if c.pending.len() > 0 {
        Cursor { pending: c.pending.drop_first(), missed: 0 }
    } else {
        c
    }
}

/// One call on the bus.
pub enum BusCall {
    /// A subscriber joins.
    Subscribe,
    /// An event is published.
    Publish(Message),
    /// The subscriber with this number reads.
    Next(usize),
}

/// The bus after one call. A new subscriber starts with nothing to read.
/// A published event reaches every subscriber. A read moves the reader's
/// cursor and no other; a read by a number that no subscriber has changes
/// nothing.
pub open spec fn called(v: BusView, call: BusCall) -> BusView {
    match call {
        BusCall::Subscribe => BusView { depth: v.depth, subscribers: v.subscribers.push(fresh()) },
        BusCall::Publish(event) => BusView {
            depth: v.depth,
            subscribers: Seq::new(
                v.subscribers.len(),
                |i: int| published_to(v.subscribers[i], event, v.depth),
            ),
        },
        BusCall::Next(id) => if id < v.subscribers.len() {
            BusView {
                depth: v.depth,
                subscribers: v.subscribers.update(id as int, after_read(v.subscribers[id as int])),
            }
        } else {
            v
        },
    }
}

/// What a read by subscriber `id` returns: its next delivery, or nothing
/// for a number that no subscriber has.
pub open spec fn answered(v: BusView, id: usize) -> Option<Delivery> {
    if id < v.subscribers.len() {
        next_delivery(v.subscribers[id as int])
    } else {
        None
    }
}

struct Backlog {
    pending: VecDeque<Message>,
    missed: u64,
}

impl Backlog {
    spec fn cursor(&self) -> Cursor {
        Cursor { pending: self.pending@, missed: self.missed as nat }
    }

    fn new() -> (b: Self)
        ensures
            b.cursor() == fresh(),
    {
        Backlog { pending: VecDeque::new(), missed: 0 }
    }

    fn accept(&mut self, event: Message, depth: usize)
        ensures
            final(self).cursor() == published_to(old(self).cursor(), event, depth as nat),
    {
        let ghost queued = self.pending@.push(event);
        self.pending.push_back(event);
        while self.pending.len() > depth
            invariant
                self.pending@.len() <= queued.len(),
                self.pending@ == queued.skip(queued.len() - self.pending@.len()),
                self.missed == capped(old(self).missed + (queued.len() - self.pending@.len())),
                self.pending@.len() >= depth || self.pending@.len() == queued.len(),
            decreases self.pending@.len(),
        {
            self.pending.pop_front();
            self.missed = self.missed.saturating_add(1);
            assert(self.pending@ =~= queued.skip(queued.len() - self.pending@.len()));
        }
        assert(queued.skip(0) =~= queued);
    }

    fn take(&mut self) -> (r: Option<Delivery>)
        ensures
            r == next_delivery(old(self).cursor()),
            final(self).cursor() == after_read(old(self).cursor()),
    {
        if self.missed > 0 {
            let missed = self.missed;
            self.missed = 0;
            return Some(Delivery::Lagged(missed));
        }
        match self.pending.pop_front() {
            Some(event) => {
                assert(self.pending@ =~= old(self).pending@.drop_first());
                Some(Delivery::Message(event))
            },
            None => None,
        }
    }
}

/// The bus. Subscribers are known by the number that [`EventBus::subscribe`]
/// gave them.
pub struct EventBus {
    depth: usize,
    subscribers: Vec<Backlog>,
}

impl View for EventBus {
    type V = BusView;

    closed spec fn view(&self) -> BusView {
        BusView {
            depth: self.depth as nat,
            subscribers: Seq::new(self.subscribers@.len(), |i: int| self.subscribers@[i].cursor()),
        }
    }
}

impl EventBus {
    /// A bus without subscribers whose backlogs will hold `depth` events.
    pub fn new(depth: usize) -> (bus: Self)
        ensures
            bus@ == (BusView { depth: depth as nat, subscribers: Seq::empty() }),
    {
        let bus = EventBus { depth, subscribers: Vec::new() };
        assert(bus@.subscribers =~= Seq::empty());
        bus
    }

    /// Adds a subscriber, who will see the events published from now on.
    /// Returns the number by which it reads.
    pub fn subscribe(&mut self) -> (id: usize)
        ensures
            id == old(self)@.subscribers.len(),
            final(self)@ == called(old(self)@, BusCall::Subscribe),
    {
        let id = self.subscribers.len();
        self.subscribers.push(Backlog::new());
        assert(self@.subscribers =~= old(self)@.subscribers.push(fresh()));
        id
    }

    /// Hands `event` to every subscriber, without waiting for any of them.
    pub fn publish(&mut self, event: Message)
        ensures
            final(self)@ == called(old(self)@, BusCall::Publish(event)),
    {
        let depth = self.depth;
        let mut i: usize = 0;
        while i < self.subscribers.len()
            invariant
                self.depth == depth,
                depth == old(self).depth,
                self.subscribers@.len() == old(self).subscribers@.len(),
                0 <= i <= self.subscribers@.len(),
                forall|j: int|
                    0 <= j < i ==> #[trigger] self.subscribers@[j].cursor() == published_to(
                        old(self).subscribers@[j].cursor(),
                        event,
                        depth as nat,
                    ),
                forall|j: int|
                    i <= j < self.subscribers@.len() ==> #[trigger] self.subscribers@[j] == old(
                        self,
                    ).subscribers@[j],
            decreases self.subscribers@.len() - i,
        {
            self.subscribers[i].accept(event, depth);
            i += 1;
        }
        assert(self@.subscribers =~= called(old(self)@, BusCall::Publish(event)).subscribers);
    }

    /// The next delivery for subscriber `id`, or `None` where nothing waits
    /// for it. An `id` that [`EventBus::subscribe`] never gave has nothing
    /// waiting.
    pub fn next_event(&mut self, id: usize) -> (r: Option<Delivery>)
        ensures
            r == answered(old(self)@, id),
            final(self)@ == called(old(self)@, BusCall::Next(id)),
    {
        if id >= self.subscribers.len() {
            return None;
        }
        let r = self.subscribers[id].take();
        assert(self@.subscribers =~= old(self)@.subscribers.update(
            id as int,
            after_read(old(self)@.subscribers[id as int]),
        ));
        r
    }
}

/// One step in the life of a subscription: an event is published, or the
/// subscriber reads.
pub enum BusOp {
    Publish(Message),
    Read,
}

/// A subscription after one step.
pub open spec fn applied(c: Cursor, op: BusOp, depth: nat) -> Cursor {
    match op {
        BusOp::Publish(event) => published_to(c, event, depth),
        BusOp::Read => after_read(c),
    }
}

/// A subscription after a schedule of steps.
pub open spec fn replayed(c: Cursor, ops: Seq<BusOp>, depth: nat) -> Cursor
    decreases ops.len(),
{
    if ops.len() == 0 {
        c
    } else {
        applied(replayed(c, ops.drop_last(), depth), ops.last(), depth)
    }
}

/// What the reads of a schedule returned, in order. A read that found
/// nothing adds nothing.
pub open spec fn delivered(c: Cursor, ops: Seq<BusOp>, depth: nat) -> Seq<Delivery>
    decreases ops.len(),
{
    if ops.len() == 0 {
        Seq::empty()
    } else {
        let earlier = delivered(c, ops.drop_last(), depth);
        match ops.last() {
            BusOp::Publish(_) => earlier,
            BusOp::Read => match next_delivery(replayed(c, ops.drop_last(), depth)) {
                Some(d) => earlier.push(d),
                None => earlier,
            },
        }
    }
}

/// The events that a schedule publishes, in order.
pub open spec fn published(ops: Seq<BusOp>) -> Seq<Message>
    decreases ops.len(),
{
    if ops.len() == 0 {
        Seq::empty()
    } else {
        match ops.last() {
            BusOp::Publish(event) => published(ops.drop_last()).push(event),
            BusOp::Read => published(ops.drop_last()),
        }
    }
}

/// How many events a schedule leaves unread: each publish adds one, each
/// read takes one away while there is any.
pub open spec fn unread(ops: Seq<BusOp>) -> nat
    decreases ops.len(),
{
    if ops.len() == 0 {
        0
    } else {
        let before = unread(ops.drop_last());
        match ops.last() {
            BusOp::Publish(_) => before + 1,
            BusOp::Read => if before > 0 {
                (before - 1) as nat
            } else {
                0
            },
        }
    }
}

/// The subscriber reads often enough: at no point of the schedule are more
/// than `depth` events unread.
pub open spec fn keeps_pace(ops: Seq<BusOp>, depth: nat) -> bool {
    forall|n: int| 0 <= n <= ops.len() ==> #[trigger] unread(ops.take(n)) <= depth
}

/// The schedule that publishes `events` one after the other.
pub open spec fn publishes(events: Seq<Message>) -> Seq<BusOp> {
    Seq::new(events.len(), |i: int| BusOp::Publish(events[i]))
}

/// The schedule of `n` reads.
pub open spec fn reads(n: nat) -> Seq<BusOp> {
    Seq::new(n, |i: int| BusOp::Read)
}

/// A schedule in two parts: the second part starts where the first ended,
/// and the deliveries follow one another.
pub proof fn lemma_schedule_splits(c: Cursor, first: Seq<BusOp>, second: Seq<BusOp>, depth: nat)
    ensures
        replayed(c, first + second, depth) == replayed(replayed(c, first, depth), second, depth),
        delivered(c, first + second, depth) == delivered(c, first, depth) + delivered(
            replayed(c, first, depth),
            second,
            depth,
        ),
    decreases second.len(),
{
    let whole = first + second;
    let mid = replayed(c, first, depth);
    if second.len() == 0 {
        assert(whole =~= first);
        assert(delivered(c, first, depth) + Seq::<Delivery>::empty() =~= delivered(
            c,
            first,
            depth,
        ));
    } else {
        assert(whole.drop_last() =~= first + second.drop_last());
        assert(whole.last() == second.last());
        lemma_schedule_splits(c, first, second.drop_last(), depth);
        let earlier = delivered(mid, second.drop_last(), depth);
        match second.last() {
            BusOp::Publish(_) => {},
            BusOp::Read => {
                match next_delivery(replayed(mid, second.drop_last(), depth)) {
                    Some(d) => {
                        assert((delivered(c, first, depth) + earlier).push(d) =~= delivered(
                            c,
                            first,
                            depth,
                        ) + earlier.push(d));
                    },
                    None => {},
                }
            },
        }
    }
}

proof fn lemma_keeps_pace_prefix(ops: Seq<BusOp>, depth: nat)
    requires
        ops.len() > 0,
        keeps_pace(ops, depth),
    ensures
        keeps_pace(ops.drop_last(), depth),
        unread(ops) <= depth,
{
    assert forall|n: int| 0 <= n <= ops.drop_last().len() implies #[trigger] unread(
        ops.drop_last().take(n),
    ) <= depth by {
        assert(ops.drop_last().take(n) =~= ops.take(n));
    }
    assert(ops.take(ops.len() as int) =~= ops);
}

/// A subscriber that keeps pace loses nothing: starting from a new
/// subscription, whenever the schedule leaves at most `depth` events
/// unread at each of its points, no read reports a lag, the reads return
/// the published events one by one in publish order, and the events not
/// yet read are all still waiting.
pub proof fn law_keeping_pace_loses_nothing(ops: Seq<BusOp>, depth: nat)
    requires
        keeps_pace(ops, depth),
    ensures
        ({
            let got = delivered(fresh(), ops, depth);
            let end = replayed(fresh(), ops, depth);
            let all = published(ops);
            &&& got.len() + end.pending.len() == all.len()
            &&& forall|i: int| 0 <= i < got.len() ==> got[i] == Delivery::Message(all[i])
            &&& end.pending == all.skip(got.len() as int)
            &&& end.pending.len() == unread(ops)
            &&& end.missed == 0
        }),
    decreases ops.len(),
{
    let got = delivered(fresh(), ops, depth);
    let end = replayed(fresh(), ops, depth);
    let all = published(ops);
    if ops.len() == 0 {
        assert(end.pending =~= all.skip(0));
    } else {
        let head = ops.drop_last();
        lemma_keeps_pace_prefix(ops, depth);
        law_keeping_pace_loses_nothing(head, depth);
        let got0 = delivered(fresh(), head, depth);
        let mid = replayed(fresh(), head, depth);
        let all0 = published(head);
        match ops.last() {
            BusOp::Publish(event) => {
                assert(mid.pending.push(event).len() <= depth);
                assert(end.pending =~= all.skip(got.len() as int));
            },
            BusOp::Read => {
                if mid.pending.len() > 0 {
                    assert(mid.pending[0] == all0[got0.len() as int]);
                    assert(end.pending =~= all.skip(got.len() as int));
                }
            },
        }
    }
}

proof fn lemma_capped_adds(a: int, b: int)
    requires
        0 <= a,
        0 <= b,
    ensures
        capped(capped(a) + b) == capped(a + b),
{
}

/// Publishing a run of events to a subscription whose backlog is within
/// its depth keeps the newest `depth` of all that waited and counts the
/// rest as missed. No read takes place, so nothing is delivered.
pub proof fn lemma_publish_run(c: Cursor, events: Seq<Message>, depth: nat)
    requires
        c.pending.len() <= depth,
    ensures
        ({
            let all = c.pending + events;
            let lost = if all.len() > depth {
                all.len() - depth
            } else {
                0
            };
            let end = replayed(c, publishes(events), depth);
            &&& end.pending == all.skip(lost)
            &&& end.missed == if lost == 0 {
                c.missed
            } else {
                capped(c.missed + lost)
            }
            &&& delivered(c, publishes(events), depth) == Seq::<Delivery>::empty()
        }),
    decreases events.len(),
{
    let all = c.pending + events;
    let ops = publishes(events);
    if events.len() == 0 {
        assert(all.skip(0) =~= c.pending);
    } else {
        let head = events.drop_last();
        assert(ops.drop_last() =~= publishes(head));
        assert(ops.last() == BusOp::Publish(events.last()));
        lemma_publish_run(c, head, depth);
        let all0 = c.pending + head;
        let lost0 = if all0.len() > depth {
            all0.len() - depth
        } else {
            0
        };
        let mid = replayed(c, publishes(head), depth);
        let lost = if all.len() > depth {
            all.len() - depth
        } else {
            0
        };
        assert(all =~= all0.push(events.last()));
        let queued = mid.pending.push(events.last());
        assert(queued =~= all.skip(lost0));
        if queued.len() <= depth {
            assert(lost == lost0);
        } else {
            assert(queued.skip(queued.len() - depth) =~= all.skip(lost));
            lemma_capped_adds(c.missed + lost0, queued.len() - depth);
        }
    }
}

/// Reading again and again from a subscription with no lag to report
/// returns its buffered events, oldest first, and then nothing.
pub proof fn lemma_read_run(c: Cursor, n: nat, depth: nat)
    requires
        c.missed == 0,
    ensures
        ({
            let got = delivered(c, reads(n), depth);
            let end = replayed(c, reads(n), depth);
            let k = if n <= c.pending.len() {
                n
            } else {
                c.pending.len()
            };
            &&& got.len() == k
            &&& forall|i: int| 0 <= i < k ==> got[i] == Delivery::Message(c.pending[i])
            &&& end == (Cursor { pending: c.pending.skip(k as int), missed: 0 })
        }),
    decreases n,
{
    if n == 0 {
        assert(c.pending.skip(0) =~= c.pending);
    } else {
        let ops = reads(n);
        assert(ops.drop_last() =~= reads((n - 1) as nat));
        assert(ops.last() == BusOp::Read);
        lemma_read_run(c, (n - 1) as nat, depth);
        let k0 = if n - 1 <= c.pending.len() {
            n - 1
        } else {
            c.pending.len() as int
        };
        let mid = replayed(c, reads((n - 1) as nat), depth);
        if mid.pending.len() > 0 {
            assert(mid.pending.drop_first() =~= c.pending.skip(k0 + 1));
        }
    }
}

/// An overrun is reported once. Where a subscriber with no lag to report
/// stalls while so many events are published that its backlog overflows,
/// its next read returns a lag report with the number of events dropped
/// (as far as the counter goes), and the reads after it return the newest
/// `depth` events, oldest first, with no second report.
pub proof fn law_overrun_reported_once(c: Cursor, events: Seq<Message>, n: nat, depth: nat)
    requires
        c.missed == 0,
        c.pending.len() <= depth,
        c.pending.len() + events.len() > depth,
        n >= 1,
    ensures
        ({
            let all = c.pending + events;
            let lost = all.len() - depth;
            let kept = all.skip(lost);
            let got = delivered(c, publishes(events) + reads(n), depth);
            let k = if n - 1 <= depth {
                n - 1
            } else {
                depth as int
            };
            &&& got.len() == 1 + k
            &&& got[0] == Delivery::Lagged(capped(lost) as u64)
            &&& forall|i: int| 0 <= i < k ==> got[1 + i] == Delivery::Message(kept[i])
        }),
{
    let all = c.pending + events;
    let lost = all.len() - depth;
    let kept = all.skip(lost);
    let stalled = replayed(c, publishes(events), depth);
    lemma_publish_run(c, events, depth);
    lemma_schedule_splits(c, publishes(events), reads(n), depth);
    assert(delivered(c, publishes(events) + reads(n), depth) =~= delivered(
        stalled,
        reads(n),
        depth,
    ));
    // the first read reports the lag, the others go on from there
    let first = reads(1);
    let rest = reads((n - 1) as nat);
    assert(reads(n) =~= first + rest);
    lemma_schedule_splits(stalled, first, rest, depth);
    assert(first.drop_last() =~= Seq::<BusOp>::empty());
    assert(first.last() == BusOp::Read);
    assert(replayed(stalled, first.drop_last(), depth) == stalled);
    assert(delivered(stalled, first.drop_last(), depth) =~= Seq::<Delivery>::empty());
    assert(stalled.missed == capped(lost));
    assert(stalled.missed > 0);
    let told = replayed(stalled, first, depth);
    assert(told == (Cursor { pending: kept, missed: 0 }));
    assert(delivered(stalled, first, depth) =~= seq![Delivery::Lagged(capped(lost) as u64)]);
    lemma_read_run(told, (n - 1) as nat, depth);
}

/// The bus after a run of calls.
pub open spec fn history(v: BusView, calls: Seq<BusCall>) -> BusView
    decreases calls.len(),
{
    if calls.len() == 0 {
        v
    } else {
        called(history(v, calls.drop_last()), calls.last())
    }
}

/// How many subscribers a run of calls adds.
pub open spec fn subscribed(calls: Seq<BusCall>) -> nat
    decreases calls.len(),
{
    if calls.len() == 0 {
        0
    } else {
        subscribed(calls.drop_last()) + if calls.last() is Subscribe {
            1nat
        } else {
            0nat
        }
    }
}

/// A run of calls on a bus that began without subscribers, as subscriber
/// `id` lives it: the events published since it joined, and its own reads.
pub open spec fn seen_by(calls: Seq<BusCall>, id: usize) -> Seq<BusOp>
    decreases calls.len(),
{
    if calls.len() == 0 {
        Seq::empty()
    } else {
        let earlier = seen_by(calls.drop_last(), id);
        if id >= subscribed(calls.drop_last()) {
            Seq::empty()
        } else {
            match calls.last() {
                BusCall::Subscribe => earlier,
                BusCall::Publish(event) => earlier.push(BusOp::Publish(event)),
                BusCall::Next(reader) => if reader == id {
                    earlier.push(BusOp::Read)
                } else {
                    earlier
                },
            }
        }
    }
}

proof fn lemma_history_counts(calls: Seq<BusCall>, depth: nat)
    ensures
        history(BusView { depth, subscribers: Seq::empty() }, calls).depth == depth,
        history(BusView { depth, subscribers: Seq::empty() }, calls).subscribers.len()
            == subscribed(calls),
    decreases calls.len(),
{
    if calls.len() > 0 {
        lemma_history_counts(calls.drop_last(), depth);
    }
}

/// Subscribers do not disturb one another: on a bus that began without
/// subscribers, after any run of calls, each subscriber's cursor is where
/// its own schedule alone leads from a new subscription. What holds of
/// every schedule of one subscription therefore holds of every subscriber
/// of a bus.
pub proof fn law_each_subscriber_has_its_own_schedule(calls: Seq<BusCall>, depth: nat, id: usize)
    requires
        id < subscribed(calls),
    ensures
        ({
            let v = history(BusView { depth, subscribers: Seq::empty() }, calls);
            &&& v.depth == depth
            &&& v.subscribers.len() == subscribed(calls)
            &&& v.subscribers[id as int] == replayed(fresh(), seen_by(calls, id), depth)
        }),
    decreases calls.len(),
{
    let head = calls.drop_last();
    lemma_history_counts(calls, depth);
    lemma_history_counts(head, depth);
    if id < subscribed(head) {
        law_each_subscriber_has_its_own_schedule(head, depth, id);
        let earlier = seen_by(head, id);
        match calls.last() {
            BusCall::Subscribe => {},
            BusCall::Publish(event) => {
                let mine = earlier.push(BusOp::Publish(event));
                assert(mine.drop_last() =~= earlier);
            },
            BusCall::Next(reader) => {
                if reader == id {
                    let mine = earlier.push(BusOp::Read);
                    assert(mine.drop_last() =~= earlier);
                }
            },
        }
    }
}

} // verus!
