//! The state cell through which one interrupt handler tells the main loop
//! what it saw: a single flag with one writer and one reader.

use vstd::prelude::*;

verus! {

/// What a state cell is to its two users: the value it holds and, in order,
/// every value that an edge event has written into it.
pub struct CellModel {
    pub value: bool,
    pub writes: Seq<bool>,
}

/// The cell together with its observer: what the cell is, what the observer
/// saw last, and how many transitions the observer has reported so far.
pub struct HandoffModel {
    pub cell: CellModel,
    pub last_seen: bool,
    pub reactions: nat,
}

/// One invocation on a state cell, seen from outside.
#[derive(Clone, Copy, Debug, PartialEq, Eq, Structural)]
pub enum CellEvent {
    /// The interrupt handler ran.
    Edge,
    /// The main loop looked at the cell.
    Observe,
}

/// The flag shared between the interrupt handler, which alone writes it, and
/// the main loop, which alone reads it. It holds the current state, not a
/// queue of events: of several writes between two reads only the last shows.
pub struct StateCell {
    value: bool,
    writes: Ghost<Seq<bool>>,
}

/// The hardware's event-pending indication for one interrupt source.
pub struct EventSource {
    pending: bool,
}

/// What the main loop learns from one look at the cell.
#[derive(Clone, Copy, Debug, PartialEq, Eq, Structural)]
pub struct Observation {
    /// The value read from the cell.
    pub value: bool,
    /// Whether it differs from the value read the time before.
    pub changed: bool,
}

/// The main loop's side of the cell: it remembers what it saw last and so
/// tells a transition from a value that only stayed.
pub struct Observer {
    last: bool,
}

impl CellModel {
    /// A cell that holds `initial` and has not been written yet.
    pub open spec fn fresh(initial: bool) -> CellModel {
        CellModel { value: initial, writes: Seq::empty() }
    }

    /// The cell after one edge event: the value negated, and the new value
    /// recorded as written.
    pub open spec fn after_edge(self) -> CellModel {
        CellModel { value: !self.value, writes: self.writes.push(!self.value) }
    }

    /// The cell after one invocation. Observing changes nothing.
    pub open spec fn after(self, event: CellEvent) -> CellModel {
        match event {
            CellEvent::Edge => self.after_edge(),
            CellEvent::Observe => self,
        }
    }

    /// The cell after the invocations `events`, made in order.
    pub open spec fn replay(self, events: Seq<CellEvent>) -> CellModel
        decreases events.len(),
    {
        if events.len() == 0 {
            self
        } else {
            self.replay(events.drop_last()).after(events.last())
        }
    }

    /// Once written, the cell holds the value written last.
    pub open spec fn consistent(self) -> bool {
        self.writes.len() > 0 ==> self.value == self.writes.last()
    }
}

impl View for StateCell {
    type V = CellModel;

    closed spec fn view(&self) -> CellModel {
        CellModel { value: self.value, writes: self.writes@ }
    }
}

impl StateCell {
    /// Once written, the cell holds the value written last.
    #[verifier::type_invariant]
    spec fn consistent(&self) -> bool {
        self@.consistent()
    }

    /// A cell that holds `initial`. It is made before the interrupt source is
    /// enabled.
    pub fn new(initial: bool) -> (cell: StateCell)
        ensures
            cell@ == CellModel::fresh(initial),
    {
        StateCell { value: initial, writes: Ghost(Seq::empty()) }
    }

    /// The writer's side: reads the value, negates it and writes it back.
    pub fn signal(&mut self)
        ensures
            final(self)@ == old(self)@.after_edge(),
    {
        let updated = toggled(self.value);
        let ghost writes = self.writes@.push(updated);
        *self = StateCell { value: updated, writes: Ghost(writes) };
    }

    /// The value that the cell holds, read in one access. A cell that was
    /// ever written holds what was written last, so what is read is always a
    /// value that some edge event wrote.
    pub fn load(&self) -> (value: bool)
        ensures
            value == self@.value,
            self@.consistent(),
            self@.writes.len() > 0 ==> value == self@.writes.last() && self@.writes.contains(value),
    {
        proof {
            use_type_invariant(self);
            value_is_written(self@);
        }
        self.value
    }
}

/// The value that an edge event writes when it finds `current`.
pub fn toggled(current: bool) -> (updated: bool)
    ensures
        updated == !current,
{
    !current
}

proof fn value_is_written(cell: CellModel)
    requires
        cell.consistent(),
    ensures
        cell.writes.len() > 0 ==> cell.writes.contains(cell.value),
{
    if cell.writes.len() > 0 {
        assert(cell.writes[cell.writes.len() - 1] == cell.value);
    }
}

impl EventSource {
    /// Whether an event waits to be acknowledged.
    pub closed spec fn pending(&self) -> bool {
        self.pending
    }

    /// A source with no event pending.
    pub fn new() -> (source: EventSource)
        ensures
            !source.pending(),
    {
        EventSource { pending: false }
    }

    /// The hardware saw the edge: an event is pending.
    pub fn fire(&mut self)
        ensures
            final(self).pending(),
    {
        self.pending = true;
    }

    /// Whether an event waits to be acknowledged.
    pub fn is_pending(&self) -> (pending: bool)
        ensures
            pending == self.pending(),
    {
        self.pending
    }

    /// Clears the event-pending indication.
    pub fn acknowledge(&mut self)
        ensures
            !final(self).pending(),
    {
        self.pending = false;
    }
}

/// The interrupt handler: acknowledges the event at its source and updates
/// the cell. It waits for nothing and is done in a fixed number of steps.
pub fn on_edge_event(cell: &mut StateCell, source: &mut EventSource)
    ensures
        final(cell)@ == old(cell)@.after_edge(),
        !final(source).pending(),
{
    source.acknowledge();
    cell.signal();
}

impl Observer {
    /// The value seen at the last look, or the one the observer started with.
    pub closed spec fn last_seen(&self) -> bool {
        self.last
    }

    /// An observer that takes `initial` for the value seen last. It starts
    /// with the value that the cell was made with.
    pub fn new(initial: bool) -> (observer: Observer)
        ensures
            observer.last_seen() == initial,
    {
        Observer { last: initial }
    }

    /// Takes note of `value`, read from the cell just now, and tells whether
    /// it differs from the value seen last.
    pub fn detect(&mut self, value: bool) -> (seen: Observation)
        ensures
            seen == (Observation { value, changed: value != old(self).last_seen() }),
            final(self).last_seen() == value,
    {
        let changed = value != self.last;
        self.last = value;
        Observation { value, changed }
    }

    /// The main loop's look at the cell: reads it once, compares with the
    /// value seen last and remembers the new one. The value read is the one
    /// written last, however many edge events came since the last look.
    pub fn observe(&mut self, cell: &StateCell) -> (seen: Observation)
        ensures
            seen == (Observation {
                value: cell@.value,
                changed: cell@.value != old(self).last_seen(),
            }),
            final(self).last_seen() == cell@.value,
            seen.changed == (HandoffModel {
                cell: cell@,
                last_seen: old(self).last_seen(),
                reactions: 0,
            }).unseen_change(),
            cell@.writes.len() > 0 ==> seen.value == cell@.writes.last() && cell@.writes.contains(
                seen.value,
            ),
    {
        let value = cell.load();
        self.detect(value)
    }
}

/// The number of edge events among `events`.
pub open spec fn edges_in(events: Seq<CellEvent>) -> nat
    decreases events.len(),
{
    if events.len() == 0 {
        0
    } else if events.last() is Edge {
        edges_in(events.drop_last()) + 1
    } else {
        edges_in(events.drop_last())
    }
}

/// Replaying invocations keeps a cell consistent, records one write for each
/// edge event, and negates the value once for each.
pub proof fn lemma_replay(cell: CellModel, events: Seq<CellEvent>)
    requires
        cell.consistent(),
    ensures
        cell.replay(events).consistent(),
        cell.replay(events).writes.len() == cell.writes.len() + edges_in(events),
        cell.replay(events).value == (if edges_in(events) % 2 == 0 {
            cell.value
        } else {
            !cell.value
        }),
    decreases events.len(),
{
    if events.len() > 0 {
        lemma_replay(cell, events.drop_last());
    }
}

/// Edge events between two looks coalesce: the second look sees a change
/// exactly when their number is odd. Two of them in a row go unseen.
pub proof fn lemma_edges_between_looks_coalesce(cell: CellModel, between: Seq<CellEvent>)
    requires
        cell.consistent(),
    ensures
        cell.replay(between).value != cell.value <==> edges_in(between) % 2 == 1,
        cell.after_edge().after_edge().value == cell.value,
{
    lemma_replay(cell, between);
}

/// However edge events and observations are interleaved, an observation that
/// follows at least one edge event reads a value that an earlier edge event
/// wrote: the one written last.
pub proof fn lemma_observations_read_written_values(
    initial: bool,
    events: Seq<CellEvent>,
    at: int,
)
    requires
        0 <= at < events.len(),
        events[at] is Observe,
        edges_in(events.take(at)) > 0,
    ensures
        ({
            let cell = CellModel::fresh(initial).replay(events.take(at));
            &&& cell.writes.len() > 0
            &&& cell.value == cell.writes.last()
            &&& cell.writes.contains(cell.value)
        }),
{
    let cell = CellModel::fresh(initial).replay(events.take(at));
    lemma_replay(CellModel::fresh(initial), events.take(at));
    value_is_written(cell);
}

/// An observation before the first edge event reads the value that the cell
/// was made with.
pub proof fn lemma_unwritten_cell_holds_initial_value(
    initial: bool,
    events: Seq<CellEvent>,
)
    requires
        edges_in(events) == 0,
    ensures
        CellModel::fresh(initial).replay(events) == CellModel::fresh(initial),
    decreases events.len(),
{
    if events.len() > 0 {
        lemma_unwritten_cell_holds_initial_value(initial, events.drop_last());
    }
}

impl HandoffModel {
    /// A fresh cell and an observer that starts from the cell's value.
    pub open spec fn start(initial: bool) -> HandoffModel {
        HandoffModel { cell: CellModel::fresh(initial), last_seen: initial, reactions: 0 }
    }

    /// Whether the cell differs from what the observer saw last, so that the
    /// next look reports a transition.
    pub open spec fn unseen_change(self) -> bool {
        self.cell.value != self.last_seen
    }

    /// The pair after one invocation: an edge event updates the cell; a look
    /// takes note of the cell's value and reports a transition if it differs
    /// from the value seen last.
    pub open spec fn after(self, event: CellEvent) -> HandoffModel {
        match event {
            CellEvent::Edge => HandoffModel { cell: self.cell.after_edge(), ..self },
            CellEvent::Observe => HandoffModel {
                cell: self.cell,
                last_seen: self.cell.value,
                reactions: if self.unseen_change() {
                    self.reactions + 1
                } else {
                    self.reactions
                },
            },
        }
    }

    /// The pair after the invocations `events`, made in order.
    pub open spec fn replay(self, events: Seq<CellEvent>) -> HandoffModel
        decreases events.len(),
    {
        if events.len() == 0 {
            self
        } else {
            self.replay(events.drop_last()).after(events.last())
        }
    }
}

/// No edge event is counted twice, and edge events go unseen only in pairs:
/// however edge events and looks are interleaved, the transitions reported,
/// plus the one that the next look would report, are at most as many as the
/// edge events, and fewer only by an even number.
pub proof fn lemma_no_event_is_counted_twice(initial: bool, events: Seq<CellEvent>)
    ensures
        ({
            let end = HandoffModel::start(initial).replay(events);
            let due: nat = if end.unseen_change() {
                1
            } else {
                0
            };
            &&& end.cell == CellModel::fresh(initial).replay(events)
            &&& end.reactions + due <= edges_in(events)
            &&& (edges_in(events) - end.reactions - due) % 2 == 0
        }),
    decreases events.len(),
{
    if events.len() > 0 {
        lemma_no_event_is_counted_twice(initial, events.drop_last());
    }
}

/// After a look the observer is up to date: it holds the cell's value, and a
/// second look at once reports nothing.
pub proof fn lemma_look_catches_up(pair: HandoffModel)
    ensures
        !pair.after(CellEvent::Observe).unseen_change(),
        pair.after(CellEvent::Observe).after(CellEvent::Observe).reactions == pair.after(
            CellEvent::Observe,
        ).reactions,
{
}

} // verus!
