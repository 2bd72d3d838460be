use vstd::prelude::*;

verus! {

/// Types of scheduled events
#[derive(Debug, Clone, Copy, PartialEq, Eq, PartialOrd, Ord, Structural)]
pub enum EventKind {
    /// HBlank start (end of drawing)
    HBlank,
    /// HBlank end (start of next scanline)
    HBlankEnd,
    /// VBlank start
    VBlank,
    /// VBlank end (start of new frame)
    VBlankEnd,
    /// Timer 0 overflow
    Timer0Overflow,
    /// Timer 1 overflow
    Timer1Overflow,
    /// Timer 2 overflow
    Timer2Overflow,
    /// Timer 3 overflow
    Timer3Overflow,
    /// DMA channel 0-3
    Dma0,
    Dma1,
    Dma2,
    Dma3,
    /// APU sample generation
    ApuSample,
    /// APU channel sequencer tick
    ApuSequencer,
}

/// A scheduled event with a cycle timestamp
#[derive(Debug, Clone, Copy, PartialEq, Eq, Structural)]
pub struct Event {
    pub kind: EventKind,
    pub timestamp: u64,
}

impl Event {
    pub fn new(kind: EventKind, timestamp: u64) -> (e: Self)
        ensures
            e == (Event { kind, timestamp }),
    {
        Self { kind, timestamp }
    }
}

// =============================================================================
// Model of the event list
// =============================================================================

/// Timestamps never decrease along the list.
pub open spec fn events_sorted(s: Seq<Event>) -> bool {
    forall|i: int, j: int| 0 <= i <= j < s.len() ==> s[i].timestamp <= s[j].timestamp
}

/// No two events have the same kind.
pub open spec fn kinds_unique(s: Seq<Event>) -> bool {
    forall|i: int, j: int| 0 <= i < j < s.len() ==> s[i].kind != s[j].kind
}

/// Some event of kind `k` is in the list.
pub open spec fn has_kind(s: Seq<Event>, k: EventKind) -> bool {
    exists|i: int| 0 <= i < s.len() && s[i].kind == k
}

/// The list without its events of kind `k`, order kept.
pub open spec fn without_kind(s: Seq<Event>, k: EventKind) -> Seq<Event>
    decreases s.len(),
{
    if s.len() == 0 {
        s
    } else {
        let r = without_kind(s.drop_last(), k);
        if s.last().kind == k {
            r
        } else {
            r.push(s.last())
        }
    }
}

/// Whether `p` splits the list into events due at or before `t` and events after `t`.
pub open spec fn is_split(s: Seq<Event>, t: u64, p: int) -> bool {
    &&& 0 <= p <= s.len()
    &&& forall|i: int| 0 <= i < p ==> s[i].timestamp <= t
    &&& forall|i: int| p <= i < s.len() ==> s[i].timestamp > t
}

/// The position at which an event due at `t` is inserted: after every event due at or
/// before `t`, before every later one.
pub open spec fn insert_position(s: Seq<Event>, t: u64) -> int {
    choose|p: int| is_split(s, t, p)
}

/// The list after scheduling `kind` at `t`: any event of that kind is dropped and the new
/// event goes in at its place in time order.
pub open spec fn schedule_spec(s: Seq<Event>, kind: EventKind, t: u64) -> Seq<Event> {
    let r = without_kind(s, kind);
    r.insert(insert_position(r, t), Event { kind, timestamp: t })
}

proof fn lemma_without_kind_from(s: Seq<Event>, k: EventKind)
    ensures
        without_kind(s, k).len() <= s.len(),
        forall|j: int|
            0 <= j < without_kind(s, k).len() ==> s.contains(#[trigger] without_kind(s, k)[j]),
        forall|j: int|
            0 <= j < without_kind(s, k).len() ==> (#[trigger] without_kind(s, k)[j]).kind != k,
    decreases s.len(),
{
    if s.len() > 0 {
        let d = s.drop_last();
        lemma_without_kind_from(d, k);
        let r = without_kind(d, k);
        assert forall|j: int| 0 <= j < without_kind(s, k).len() implies s.contains(
            #[trigger] without_kind(s, k)[j],
        ) by {
            if j < r.len() {
                assert(d.contains(r[j]));
                let i = choose|i: int| 0 <= i < d.len() && d[i] == r[j];
                assert(s[i] == r[j]);
            } else {
                assert(s[s.len() - 1] == without_kind(s, k)[j]);
            }
        }
    }
}

proof fn lemma_without_kind_keeps(s: Seq<Event>, k: EventKind)
    ensures
        forall|i: int|
            0 <= i < s.len() && (#[trigger] s[i]).kind != k ==> without_kind(s, k).contains(s[i]),
    decreases s.len(),
{
    if s.len() > 0 {
        let d = s.drop_last();
        lemma_without_kind_keeps(d, k);
        let r = without_kind(d, k);
        assert forall|i: int| 0 <= i < s.len() && (#[trigger] s[i]).kind != k implies without_kind(
            s,
            k,
        ).contains(s[i]) by {
            if i < d.len() {
                assert(d[i] == s[i]);
                assert(r.contains(d[i]));
                let j = choose|j: int| 0 <= j < r.len() && r[j] == d[i];
                assert(without_kind(s, k)[j] == s[i]);
            } else {
                assert(without_kind(s, k)[r.len() as int] == s[i]);
            }
        }
    }
}

proof fn lemma_without_kind_sorted(s: Seq<Event>, k: EventKind)
    requires
        events_sorted(s),
    ensures
        events_sorted(without_kind(s, k)),
    decreases s.len(),
{
    if s.len() > 0 {
        let d = s.drop_last();
        lemma_without_kind_sorted(d, k);
        lemma_without_kind_from(d, k);
        let r = without_kind(d, k);
        if s.last().kind != k {
            let n = r.push(s.last());
            assert forall|a: int, b: int| 0 <= a <= b < n.len() implies n[a].timestamp
                <= n[b].timestamp by {
                if b == r.len() && a < b {
                    assert(d.contains(r[a]));
                    let i = choose|i: int| 0 <= i < d.len() && d[i] == r[a];
                    assert(s[i] == r[a]);
                }
            }
        }
    }
}

proof fn lemma_without_kind_unique(s: Seq<Event>, k: EventKind)
    requires
        kinds_unique(s),
    ensures
        kinds_unique(without_kind(s, k)),
    decreases s.len(),
{
    if s.len() > 0 {
        let d = s.drop_last();
        lemma_without_kind_unique(d, k);
        lemma_without_kind_from(d, k);
        let r = without_kind(d, k);
        if s.last().kind != k {
            let n = r.push(s.last());
            assert forall|a: int, b: int| 0 <= a < b < n.len() implies n[a].kind != n[b].kind by {
                if b == r.len() {
                    assert(d.contains(r[a]));
                    let i = choose|i: int| 0 <= i < d.len() && d[i] == r[a];
                    assert(s[i] == r[a]);
                }
            }
        }
    }
}

proof fn lemma_without_kind(s: Seq<Event>, k: EventKind)
    ensures
        without_kind(s, k).len() <= s.len(),
        forall|j: int|
            0 <= j < without_kind(s, k).len() ==> (#[trigger] without_kind(s, k)[j]).kind != k,
        events_sorted(s) ==> events_sorted(without_kind(s, k)),
        kinds_unique(s) ==> kinds_unique(without_kind(s, k)),
        forall|i: int|
            0 <= i < s.len() && (#[trigger] s[i]).kind != k ==> without_kind(s, k).contains(s[i]),
{
    lemma_without_kind_from(s, k);
    lemma_without_kind_keeps(s, k);
    if events_sorted(s) {
        lemma_without_kind_sorted(s, k);
    }
    if kinds_unique(s) {
        lemma_without_kind_unique(s, k);
    }
}

proof fn lemma_split_unique(s: Seq<Event>, t: u64, p: int)
    requires
        is_split(s, t, p),
    ensures
        insert_position(s, t) == p,
{
    let q = insert_position(s, t);
    assert(is_split(s, t, q));
    if q < p {
        assert(s[q].timestamp <= t);
    } else if p < q {
        assert(s[p].timestamp <= t);
    }
}

// =============================================================================
// Scheduler
// =============================================================================

/// Cycle-accurate event scheduler
///
/// Events are kept in a sorted list (by timestamp). The scheduler drives
/// all hardware timing in the emulator.
#[derive(Debug, Clone)]
pub struct Scheduler {
    /// Current cycle count (global monotonic counter)
    pub current_cycle: u64,
    /// Sorted list of pending events (earliest first)
    events: Vec<Event>,
}

/// The scheduler as plain values.
#[verifier::ext_equal]
pub struct SchedView {
    pub current_cycle: u64,
    pub events: Seq<Event>,
}

impl View for Scheduler {
    type V = SchedView;

    closed spec fn view(&self) -> SchedView {
        SchedView { current_cycle: self.current_cycle, events: self.events@ }
    }
}

impl Scheduler {
    /// The pending events are in time order and hold at most one event of each kind.
    pub open spec fn wf(&self) -> bool {
        events_sorted(self@.events) && kinds_unique(self@.events)
    }

    pub fn new() -> (s: Self)
        ensures
            s@.events == Seq::<Event>::empty(),
            s@.current_cycle == 0,
            s.wf(),
    {
        Self { current_cycle: 0, events: Vec::with_capacity(32) }
    }

    /// Schedule an event at an absolute cycle timestamp
    pub fn schedule(&mut self, kind: EventKind, timestamp: u64)
        requires
            old(self).wf(),
        ensures
            final(self)@.events == schedule_spec(old(self)@.events, kind, timestamp),
            final(self)@.current_cycle == old(self)@.current_cycle,
            final(self).wf(),
    {
        let ghost s = self@.events;
        // Remove any existing event of the same kind
        self.remove_kind(kind);
        let ghost r = self@.events;
        proof {
            lemma_without_kind(s, kind);
        }
        let event = Event::new(kind, timestamp);

        // Insert sorted by timestamp (earliest first)
        let mut pos: usize = 0;
        while pos < self.events.len() && self.events[pos].timestamp <= timestamp
            invariant
                self@.events == r,
                events_sorted(r),
                pos <= r.len(),
                forall|i: int| 0 <= i < pos ==> r[i].timestamp <= timestamp,
            decreases r.len() - pos,
        {
            pos = pos + 1;
        }
        proof {
            assert(is_split(r, timestamp, pos as int));
            lemma_split_unique(r, timestamp, pos as int);
        }
        self.events.insert(pos, event);
        proof {
            let n = self@.events;
            assert forall|a: int, b: int| 0 <= a <= b < n.len() implies n[a].timestamp
                <= n[b].timestamp by {
                if a < pos && b > pos {
                    assert(n[b] == r[b - 1]);
                }
            }
            assert forall|a: int, b: int| 0 <= a < b < n.len() implies n[a].kind != n[b].kind by {
                if a == pos {
                    assert(n[b] == r[b - 1]);
                } else if b == pos {
                    assert(n[a] == r[a]);
                }
            }
        }
    }

    fn remove_kind(&mut self, kind: EventKind)
        ensures
            final(self)@.events == without_kind(old(self)@.events, kind),
            final(self)@.current_cycle == old(self)@.current_cycle,
    {
        let ghost s = self@.events;
        let mut kept: Vec<Event> = Vec::new();
        let mut i: usize = 0;
        while i < self.events.len()
            invariant
                self@.events == s,
                i <= s.len(),
                kept@ == without_kind(s.subrange(0, i as int), kind),
            decreases s.len() - i,
        {
            let e = self.events[i];
            assert(s.subrange(0, i as int + 1).drop_last() =~= s.subrange(0, i as int));
            if e.kind != kind {
                kept.push(e);
            }
            i = i + 1;
        }
        assert(s.subrange(0, s.len() as int) =~= s);
        self.events = kept;
    }

    /// Schedule an event relative to the current cycle
    pub fn schedule_relative(&mut self, kind: EventKind, cycles_from_now: u64)
        requires
            old(self).wf(),
            old(self)@.current_cycle + cycles_from_now <= u64::MAX,
        ensures
            final(self)@.events == schedule_spec(
                old(self)@.events,
                kind,
                (old(self)@.current_cycle + cycles_from_now) as u64,
            ),
            final(self)@.current_cycle == old(self)@.current_cycle,
            final(self).wf(),
    {
        self.schedule(kind, self.current_cycle + cycles_from_now);
    }

    /// Cancel a pending event of the given kind
    pub fn cancel(&mut self, kind: EventKind)
        requires
            old(self).wf(),
        ensures
            final(self)@.events == without_kind(old(self)@.events, kind),
            !has_kind(final(self)@.events, kind),
            final(self)@.current_cycle == old(self)@.current_cycle,
            final(self).wf(),
    {
        self.remove_kind(kind);
        proof {
            lemma_without_kind(old(self)@.events, kind);
        }
    }

    /// Get the next event without removing it
    pub fn peek(&self) -> (r: Option<&Event>)
        ensures
            match r {
                Some(e) => self@.events.len() > 0 && *e == self@.events[0],
                None => self@.events.len() == 0,
            },
    {
        if self.events.len() > 0 {
            Some(&self.events[0])
        } else {
            None
        }
    }

    /// How many cycles until the next event (0 if past due)
    pub fn cycles_until_next(&self) -> (r: u64)
        ensures
            self@.events.len() == 0 ==> r == u64::MAX,
            self@.events.len() > 0 ==> r == (if self@.events[0].timestamp >= self@.current_cycle {
                self@.events[0].timestamp - self@.current_cycle
            } else {
                0
            }),
    {
        if self.events.len() > 0 {
            self.events[0].timestamp.saturating_sub(self.current_cycle)
        } else {
            u64::MAX
        }
    }

    /// Pop the next event if it's due (timestamp <= current_cycle)
    pub fn pop_pending(&mut self) -> (r: Option<Event>)
        requires
            old(self).wf(),
        ensures
            final(self)@.current_cycle == old(self)@.current_cycle,
            final(self).wf(),
            match r {
                Some(e) => {
                    &&& old(self)@.events.len() > 0
                    &&& e == old(self)@.events[0]
                    &&& e.timestamp <= old(self)@.current_cycle
                    &&& final(self)@.events == old(self)@.events.remove(0)
                },
                None => {
                    &&& final(self)@.events == old(self)@.events
                    &&& (old(self)@.events.len() == 0 || old(self)@.events[0].timestamp > old(self)@.current_cycle)
                },
            },
    {
        if self.events.len() > 0 {
            if self.events[0].timestamp <= self.current_cycle {
                let e = self.events.remove(0);
                return Some(e);
            }
        }
        None
    }

    /// Advance the current cycle count
    pub fn advance(&mut self, cycles: u64)
        requires
            old(self)@.current_cycle + cycles <= u64::MAX,
        ensures
            final(self)@.current_cycle == old(self)@.current_cycle + cycles,
            final(self)@.events == old(self)@.events,
    {
        self.current_cycle = self.current_cycle + cycles;
    }

    /// Check if a specific event kind is scheduled
    pub fn is_scheduled(&self, kind: EventKind) -> (r: bool)
        ensures
            r == has_kind(self@.events, kind),
    {
        let mut i: usize = 0;
        while i < self.events.len()
            invariant
                i <= self@.events.len(),
                forall|j: int| 0 <= j < i ==> self@.events[j].kind != kind,
            decreases self@.events.len() - i,
        {
            if self.events[i].kind == kind {
                return true;
            }
            i = i + 1;
        }
        false
    }

    /// The current cycle count
    pub fn current(&self) -> (r: u64)
        ensures
            r == self@.current_cycle,
    {
        self.current_cycle
    }

    /// The pending event of a kind, if any
    pub fn find(&self, kind: EventKind) -> (r: Option<Event>)
        ensures
            r is None <==> !has_kind(self@.events, kind),
            r is Some ==> self@.events.contains(r.unwrap()) && r.unwrap().kind == kind,
    {
        let mut i: usize = 0;
        while i < self.events.len()
            invariant
                i <= self@.events.len(),
                forall|j: int| 0 <= j < i ==> self@.events[j].kind != kind,
            decreases self@.events.len() - i,
        {
            if self.events[i].kind == kind {
                assert(self@.events[i as int] == self.events[i as int]);
                return Some(self.events[i]);
            }
            i = i + 1;
        }
        None
    }

    /// Get the number of pending events
    pub fn pending_count(&self) -> (r: usize)
        ensures
            r == self@.events.len(),
    {
        self.events.len()
    }
}

impl Default for Scheduler {
    fn default() -> (s: Self)
        ensures
            s@.events == Seq::<Event>::empty(),
            s@.current_cycle == 0,
    {
        Self::new()
    }
}

// =============================================================================
// Laws of the scheduler
// =============================================================================

/// After scheduling, exactly one event of the kind is pending, at the given time, and
/// every other pending event stays.
pub proof fn lemma_schedule_holds_one(s: Seq<Event>, kind: EventKind, t: u64)
    requires
        events_sorted(s),
        kinds_unique(s),
    ensures
        has_kind(schedule_spec(s, kind, t), kind),
        forall|i: int|
            0 <= i < schedule_spec(s, kind, t).len() && (#[trigger] schedule_spec(s, kind, t)[i]).kind
                == kind ==> schedule_spec(s, kind, t)[i].timestamp == t,
        forall|i: int|
            0 <= i < s.len() && (#[trigger] s[i]).kind != kind ==> schedule_spec(s, kind, t).contains(
                s[i],
            ),
        schedule_spec(s, kind, t).len() == without_kind(s, kind).len() + 1,
{
    lemma_without_kind(s, kind);
    let r = without_kind(s, kind);
    lemma_leading_le(r, t);
    let q = insert_position(r, t);
    let n = schedule_spec(s, kind, t);
    assert(n[q].kind == kind);
    assert forall|i: int| 0 <= i < n.len() && (#[trigger] n[i]).kind == kind implies n[i].timestamp
        == t by {
        if i < q {
            assert(n[i] == r[i]);
        } else if i > q {
            assert(n[i] == r[i - 1]);
        }
    }
    assert forall|i: int| 0 <= i < s.len() && (#[trigger] s[i]).kind != kind implies n.contains(
        s[i],
    ) by {
        assert(r.contains(s[i]));
        let j = choose|j: int| 0 <= j < r.len() && r[j] == s[i];
        if j < q {
            assert(n[j] == s[i]);
        } else {
            assert(n[j + 1] == s[i]);
        }
    }
}

proof fn lemma_leading_le(r: Seq<Event>, t: u64)
    requires
        events_sorted(r),
    ensures
        exists|p: int| is_split(r, t, p),
    decreases r.len(),
{
    if r.len() == 0 {
        assert(is_split(r, t, 0));
    } else if r.last().timestamp <= t {
        assert(is_split(r, t, r.len() as int));
    } else {
        let d = r.drop_last();
        lemma_leading_le(d, t);
        let p = choose|p: int| is_split(d, t, p);
        assert forall|i: int| p <= i < r.len() implies r[i].timestamp > t by {
            if i < d.len() {
                assert(d[i] == r[i]);
            }
        }
        assert forall|i: int| 0 <= i < p implies r[i].timestamp <= t by {
            assert(d[i] == r[i]);
        }
        assert(is_split(r, t, p));
    }
}

/// The event that `pop_pending` hands out is due no later than any other pending event.
pub proof fn lemma_first_is_earliest(s: Seq<Event>)
    requires
        events_sorted(s),
        s.len() > 0,
    ensures
        forall|i: int| 0 <= i < s.len() ==> s[0].timestamp <= #[trigger] s[i].timestamp,
{
}

// =============================================================================
// Backlog of due events
// =============================================================================

/// How long an event is overdue at cycle `c`, counting its own cycle: 0 if it is not due.
pub open spec fn overdue(e: Event, c: u64) -> nat {
    if e.timestamp <= c {
        (c - e.timestamp + 1) as nat
    } else {
        0
    }
}

/// The total overdue time of a list of events at cycle `c`.
pub open spec fn backlog(s: Seq<Event>, c: u64) -> nat
    decreases s.len(),
{
    if s.len() == 0 {
        0
    } else {
        backlog(s.drop_last(), c) + overdue(s.last(), c)
    }
}

proof fn lemma_backlog_concat(a: Seq<Event>, b: Seq<Event>, c: u64)
    ensures
        backlog(a + b, c) == backlog(a, c) + backlog(b, c),
    decreases b.len(),
{
    if b.len() > 0 {
        lemma_backlog_concat(a, b.drop_last(), c);
        assert((a + b).drop_last() =~= a + b.drop_last());
    } else {
        assert(a + b =~= a);
    }
}

/// Dropping the events of one kind does not add to the backlog.
pub proof fn lemma_backlog_without_kind(s: Seq<Event>, k: EventKind, c: u64)
    ensures
        backlog(without_kind(s, k), c) <= backlog(s, c),
    decreases s.len(),
{
    if s.len() > 0 {
        lemma_backlog_without_kind(s.drop_last(), k, c);
        let r = without_kind(s.drop_last(), k);
        if s.last().kind != k {
            assert(r.push(s.last()).drop_last() =~= r);
        }
    }
}

/// Scheduling adds the new event's overdue time to the backlog of the other kinds.
pub proof fn lemma_backlog_schedule(s: Seq<Event>, k: EventKind, t: u64, c: u64)
    requires
        events_sorted(s),
    ensures
        backlog(schedule_spec(s, k, t), c) <= backlog(s, c) + overdue(Event { kind: k, timestamp: t }, c),
{
    lemma_without_kind(s, k);
    let r = without_kind(s, k);
    lemma_leading_le(r, t);
    let p = insert_position(r, t);
    let e = Event { kind: k, timestamp: t };
    assert(is_split(r, t, p));
    let a = r.subrange(0, p);
    let b = r.subrange(p, r.len() as int);
    assert(r =~= a + b);
    assert(r.insert(p, e) =~= a + (seq![e] + b));
    lemma_backlog_concat(a, b, c);
    lemma_backlog_concat(a, seq![e] + b, c);
    lemma_backlog_concat(seq![e], b, c);
    assert(seq![e].drop_last() =~= Seq::<Event>::empty());
    assert(backlog(Seq::<Event>::empty(), c) == 0);
    assert(backlog(seq![e], c) == overdue(e, c));
    lemma_backlog_without_kind(s, k, c);
}

/// Taking the first event off removes its overdue time from the backlog.
pub proof fn lemma_backlog_remove_first(s: Seq<Event>, c: u64)
    requires
        s.len() > 0,
    ensures
        backlog(s, c) == overdue(s[0], c) + backlog(s.remove(0), c),
{
    assert(s =~= seq![s[0]] + s.remove(0));
    lemma_backlog_concat(seq![s[0]], s.remove(0), c);
    assert(seq![s[0]].drop_last() =~= Seq::<Event>::empty());
    assert(backlog(Seq::<Event>::empty(), c) == 0);
    assert(backlog(seq![s[0]], c) == overdue(s[0], c));
}

/// Scheduling on an empty list gives a list of that one event.
pub proof fn lemma_schedule_empty(kind: EventKind, t: u64)
    ensures
        schedule_spec(Seq::empty(), kind, t) == seq![Event { kind, timestamp: t }],
{
    let e = Seq::<Event>::empty();
    assert(without_kind(e, kind) == e);
    assert(is_split(e, t, 0));
    lemma_split_unique(e, t, 0);
    assert(e.insert(0, Event { kind, timestamp: t }) =~= seq![Event { kind, timestamp: t }]);
}

/// Dropping the events of one kind keeps the others in their order.
proof fn lemma_without_kind_is_filter(s: Seq<Event>, k: EventKind)
    ensures
        without_kind(s, k) == s.filter(|e: Event| e.kind != k),
    decreases s.len(),
{
    reveal_with_fuel(Seq::filter, 2);
    if s.len() > 0 {
        lemma_without_kind_is_filter(s.drop_last(), k);
    }
}

/// Scheduling `kind` at `t` on a sorted list of distinct kinds: the new event goes in after
/// every event due at or before `t` and before every later one; taking it out leaves
/// exactly the events of the other kinds, in their old order; and the list stays sorted
/// with distinct kinds.
pub proof fn lemma_schedule_placement(s: Seq<Event>, kind: EventKind, t: u64)
    requires
        events_sorted(s),
        kinds_unique(s),
    ensures
        ({
            let n = schedule_spec(s, kind, t);
            let p = insert_position(without_kind(s, kind), t);
            &&& 0 <= p < n.len()
            &&& n[p] == Event { kind, timestamp: t }
            &&& forall|i: int| 0 <= i < p ==> n[i].timestamp <= t
            &&& forall|i: int| p < i < n.len() ==> n[i].timestamp > t
            &&& n.remove(p) == s.filter(|e: Event| e.kind != kind)
            &&& events_sorted(n)
            &&& kinds_unique(n)
        }),
{
    lemma_without_kind(s, kind);
    lemma_without_kind_is_filter(s, kind);
    let r = without_kind(s, kind);
    lemma_leading_le(r, t);
    let p = insert_position(r, t);
    assert(is_split(r, t, p));
    let e = Event { kind, timestamp: t };
    let n = schedule_spec(s, kind, t);
    assert(n == r.insert(p, e));
    assert forall|i: int| 0 <= i < p implies n[i].timestamp <= t by {
        assert(n[i] == r[i]);
    }
    assert forall|i: int| p < i < n.len() implies n[i].timestamp > t by {
        assert(n[i] == r[i - 1]);
    }
    assert(n.remove(p) =~= r);
    assert forall|a: int, b: int| 0 <= a <= b < n.len() implies n[a].timestamp
        <= n[b].timestamp by {
        if a < p && b > p {
            assert(n[a] == r[a]);
            assert(n[b] == r[b - 1]);
        } else if a > p {
            assert(n[a] == r[a - 1]);
            assert(n[b] == r[b - 1]);
        } else if b < p {
            assert(n[a] == r[a]);
            assert(n[b] == r[b]);
        }
    }
    assert forall|a: int, b: int| 0 <= a < b < n.len() implies n[a].kind != n[b].kind by {
        if a == p {
            assert(n[b] == r[b - 1]);
        } else if b == p {
            assert(n[a] == r[a]);
        } else if a < p && b > p {
            assert(n[a] == r[a]);
            assert(n[b] == r[b - 1]);
        } else if a > p {
            assert(n[a] == r[a - 1]);
            assert(n[b] == r[b - 1]);
        } else {
            assert(n[a] == r[a]);
            assert(n[b] == r[b]);
        }
    }
}

/// What a scheduled list holds: the new event, and the old events of other kinds.
pub proof fn lemma_schedule_contents(s: Seq<Event>, kind: EventKind, t: u64, x: Event)
    requires
        events_sorted(s),
    ensures
        schedule_spec(s, kind, t).contains(x) <==> (x == Event { kind, timestamp: t } || (
        s.contains(x) && x.kind != kind)),
{
    lemma_without_kind(s, kind);
    lemma_without_kind_from(s, kind);
    let r = without_kind(s, kind);
    lemma_leading_le(r, t);
    let q = insert_position(r, t);
    assert(is_split(r, t, q));
    let e = Event { kind, timestamp: t };
    let n = schedule_spec(s, kind, t);
    assert(n == r.insert(q, e));
    if n.contains(x) {
        let i = choose|i: int| 0 <= i < n.len() && n[i] == x;
        if i < q {
            assert(n[i] == r[i]);
            assert(s.contains(r[i]));
        } else if i > q {
            assert(n[i] == r[i - 1]);
            assert(s.contains(r[i - 1]));
        }
    }
    if x == e {
        assert(n[q] == e);
    } else if s.contains(x) && x.kind != kind {
        let i = choose|i: int| 0 <= i < s.len() && s[i] == x;
        assert(r.contains(s[i]));
        let j = choose|j: int| 0 <= j < r.len() && r[j] == x;
        if j < q {
            assert(n[j] == x);
        } else {
            assert(n[j + 1] == x);
        }
    }
}

} // verus!
