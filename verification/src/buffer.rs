//! Batching of log entries between the emitters and the sinks.
//!
//! The buffer collects entries and hands a batch to the sinks when it reaches
//! its capacity, when the flush interval elapses with entries pending, or when
//! the channel closes.  [`Batcher::step`] is the decision made for one event;
//! the caller waits for events and performs the flushes.

use vstd::prelude::*;

verus! {

/// What the buffer's receive loop observed.
pub enum BufferEvent<T> {
    /// An entry arrived on the channel.
    Received(T),
    /// The channel closed: every emitter has finished.
    Closed,
    /// The flush interval elapsed without an entry arriving.
    TimedOut,
}

/// What the receive loop must do after an event.
pub enum BufferAction<T> {
    /// Keep waiting for events.
    Wait,
    /// Write this batch to every sink, restart the flush timer, and keep waiting.
    Flush(Vec<T>),
    /// Write this batch to every sink, then stop.
    FlushAndStop(Vec<T>),
    /// Stop without writing.
    Stop,
}

/// Mathematical form of a [`BufferAction`].
pub enum Step<T> {
    Wait,
    Flush(Seq<T>),
    FlushAndStop(Seq<T>),
    Stop,
}

impl<T> View for BufferAction<T> {
    type V = Step<T>;

    open spec fn view(&self) -> Step<T> {
        match self {
            BufferAction::Wait => Step::Wait,
            BufferAction::Flush(v) => Step::Flush(v@),
            BufferAction::FlushAndStop(v) => Step::FlushAndStop(v@),
            BufferAction::Stop => Step::Stop,
        }
    }
}

/// The entries a step hands to the sinks (empty when it writes nothing).
pub open spec fn step_batch<T>(s: Step<T>) -> Seq<T> {
    match s {
        Step::Flush(b) => b,
        Step::FlushAndStop(b) => b,
        _ => Seq::empty(),
    }
}

/// Whether a step writes to the sinks.
pub open spec fn step_writes<T>(s: Step<T>) -> bool {
    s is Flush || s is FlushAndStop
}

/// Whether a step ends the receive loop.
pub open spec fn step_stops<T>(s: Step<T>) -> bool {
    s is FlushAndStop || s is Stop
}

/// The entries an event delivers (one for `Received`, none otherwise).
pub open spec fn event_entries<T>(e: BufferEvent<T>) -> Seq<T> {
    match e {
        BufferEvent::Received(x) => seq![x],
        _ => Seq::empty(),
    }
}

/// The effective batch size: a capacity of zero flushes every entry on its own.
pub open spec fn batch_limit(capacity: nat) -> nat {
    if capacity == 0 {
        1
    } else {
        capacity
    }
}

/// A pending sequence that a buffer of this capacity can hold between events.
pub open spec fn pending_ok<T>(pending: Seq<T>, capacity: nat) -> bool {
    pending.len() < batch_limit(capacity)
}

/// One decision of the receive loop: the new pending entries and the step taken.
pub open spec fn next_state<T>(pending: Seq<T>, capacity: nat, event: BufferEvent<T>) -> (Seq<T>, Step<T>) {
    match event {
        BufferEvent::Received(x) => {
            let p = pending.push(x);
            if p.len() >= capacity {
                (Seq::empty(), Step::Flush(p))
            } else {
                (p, Step::Wait)
            }
        },
        BufferEvent::Closed => {
            if pending.len() > 0 {
                (Seq::empty(), Step::FlushAndStop(pending))
            } else {
                (pending, Step::Stop)
            }
        },
        BufferEvent::TimedOut => {
            if pending.len() > 0 {
                (Seq::empty(), Step::Flush(pending))
            } else {
                (pending, Step::Wait)
            }
        },
    }
}

/// The pending entries and the steps taken after a sequence of events.
pub open spec fn run<T>(pending: Seq<T>, capacity: nat, events: Seq<BufferEvent<T>>) -> (Seq<T>, Seq<Step<T>>)
    decreases events.len(),
{
    if events.len() == 0 {
        (pending, Seq::empty())
    } else {
        let (mid, steps) = run(pending, capacity, events.drop_last());
        let (last, s) = next_state(mid, capacity, events.last());
        (last, steps.push(s))
    }
}

/// All entries that a sequence of events delivers, in order.
pub open spec fn received<T>(events: Seq<BufferEvent<T>>) -> Seq<T>
    decreases events.len(),
{
    if events.len() == 0 {
        Seq::empty()
    } else {
        received(events.drop_last()) + event_entries(events.last())
    }
}

/// All entries that a sequence of steps writes to the sinks, in order.
pub open spec fn flushed<T>(steps: Seq<Step<T>>) -> Seq<T>
    decreases steps.len(),
{
    if steps.len() == 0 {
        Seq::empty()
    } else {
        flushed(steps.drop_last()) + step_batch(steps.last())
    }
}

/// Nothing is lost or duplicated by one event: the batch written followed by
/// what stays pending is exactly what was pending followed by what arrived.
pub proof fn law_step_conserves_entries<T>(pending: Seq<T>, capacity: nat, event: BufferEvent<T>)
    ensures
        ({
            let (after, s) = next_state(pending, capacity, event);
            step_batch(s) + after == pending + event_entries(event)
        }),
{
    let (after, s) = next_state(pending, capacity, event);
    match event {
        BufferEvent::Received(x) => {
            if pending.push(x).len() >= capacity {
                assert(step_batch(s) + after =~= pending + event_entries(event));
            } else {
                assert(step_batch(s) + after =~= pending + event_entries(event));
            }
        },
        _ => {
            assert(step_batch(s) + after =~= pending + event_entries(event));
        },
    }
}

/// Over any sequence of events, the entries written to the sinks, followed by
/// those still pending, are the entries that were pending followed by every
/// entry received, in arrival order.
pub proof fn law_run_conserves_entries<T>(pending: Seq<T>, capacity: nat, events: Seq<BufferEvent<T>>)
    ensures
        ({
            let (after, steps) = run(pending, capacity, events);
            flushed(steps) + after == pending + received(events)
        }),
    decreases events.len(),
{
    if events.len() == 0 {
        let (after, steps) = run(pending, capacity, events);
        assert(flushed(steps) + after =~= pending + received(events));
    } else {
        let init = events.drop_last();
        law_run_conserves_entries(pending, capacity, init);
        let (mid, steps0) = run(pending, capacity, init);
        let (after, s) = next_state(mid, capacity, events.last());
        law_step_conserves_entries(mid, capacity, events.last());
        let steps = steps0.push(s);
        assert(steps.drop_last() =~= steps0);
        assert(flushed(steps) == flushed(steps0) + step_batch(s));
        assert(received(events) == received(init) + event_entries(events.last()));
        assert((flushed(steps0) + step_batch(s)) + after =~= flushed(steps0) + (step_batch(s) + after));
        assert(flushed(steps0) + (mid + event_entries(events.last())) =~= (flushed(steps0) + mid)
            + event_entries(events.last()));
        assert((pending + received(init)) + event_entries(events.last()) =~= pending + (received(init)
            + event_entries(events.last())));
    }
}

/// When the channel closes, nothing stays pending: every entry received before
/// the close has been written to the sinks exactly once, in arrival order.
pub proof fn law_close_writes_everything<T>(capacity: nat, events: Seq<BufferEvent<T>>)
    requires
        events.len() > 0,
        events.last() is Closed,
    ensures
        run(Seq::<T>::empty(), capacity, events).0 == Seq::<T>::empty(),
        flushed(run(Seq::<T>::empty(), capacity, events).1) == received(events),
{
    law_run_conserves_entries(Seq::<T>::empty(), capacity, events);
    let (after, steps) = run(Seq::<T>::empty(), capacity, events);
    assert(after =~= Seq::<T>::empty());
    assert(flushed(steps) + after =~= flushed(steps));
    assert(Seq::<T>::empty() + received(events) =~= received(events));
}

/// A write always empties the buffer: the batch written is everything that was
/// pending followed by what just arrived, and nothing stays pending.
pub proof fn law_writes_take_everything<T>(pending: Seq<T>, capacity: nat, event: BufferEvent<T>)
    ensures
        ({
            let (after, s) = next_state(pending, capacity, event);
            step_writes(s) ==> (after.len() == 0 && step_batch(s) == pending + event_entries(event))
        }),
{
    let (after, s) = next_state(pending, capacity, event);
    if step_writes(s) {
        law_step_conserves_entries(pending, capacity, event);
        assert(step_batch(s) + after =~= step_batch(s));
    }
}

/// When the timer expires or the channel closes with entries pending, the
/// whole pending sequence is written and nothing stays pending; with nothing
/// pending, nothing is written and the buffer stays empty.
pub proof fn law_timeout_and_close_write_all_pending<T>(pending: Seq<T>, capacity: nat, event: BufferEvent<T>)
    requires
        event is TimedOut || event is Closed,
    ensures
        ({
            let (after, s) = next_state(pending, capacity, event);
            &&& pending.len() > 0 ==> (step_writes(s) && step_batch(s) == pending && after.len() == 0)
            &&& pending.len() == 0 ==> (!step_writes(s) && after.len() == 0)
        }),
{
}

/// The loop stops exactly when the channel closes.
pub proof fn law_stops_only_on_close<T>(pending: Seq<T>, capacity: nat, event: BufferEvent<T>)
    ensures
        step_stops(next_state(pending, capacity, event).1) <==> event is Closed,
{
}

/// A buffer never writes an empty batch, never writes more than a batch, and
/// always holds less than a batch between events; a flush caused by an arriving
/// entry writes exactly a full batch.
pub proof fn law_batches_are_bounded<T>(pending: Seq<T>, capacity: nat, event: BufferEvent<T>)
    requires
        pending_ok(pending, capacity),
    ensures
        ({
            let (after, s) = next_state(pending, capacity, event);
            &&& pending_ok(after, capacity)
            &&& step_writes(s) ==> 0 < step_batch(s).len() <= batch_limit(capacity)
            &&& (step_writes(s) && event is Received) ==> step_batch(s).len() == batch_limit(capacity)
            &&& !step_writes(s) ==> step_batch(s).len() == 0
        }),
{
}

/// Over any sequence of events from a fresh buffer, every batch written is
/// non-empty and no larger than a batch.
pub proof fn law_run_batches_are_bounded<T>(capacity: nat, events: Seq<BufferEvent<T>>)
    ensures
        pending_ok(run(Seq::<T>::empty(), capacity, events).0, capacity),
        forall|i: int|
            0 <= i < run(Seq::<T>::empty(), capacity, events).1.len() ==> {
                let s = #[trigger] run(Seq::<T>::empty(), capacity, events).1[i];
                step_writes(s) ==> 0 < step_batch(s).len() <= batch_limit(capacity)
            },
    decreases events.len(),
{
    if events.len() > 0 {
        let init = events.drop_last();
        law_run_batches_are_bounded(capacity, init);
        let (mid, steps0) = run(Seq::<T>::empty(), capacity, init);
        law_batches_are_bounded(mid, capacity, events.last());
        let (after, s) = next_state(mid, capacity, events.last());
        let steps = steps0.push(s);
        assert forall|i: int| 0 <= i < steps.len() implies {
            let t = #[trigger] steps[i];
            step_writes(t) ==> 0 < step_batch(t).len() <= batch_limit(capacity)
        } by {
            if i < steps0.len() {
                assert(steps[i] == steps0[i]);
            }
        }
    }
}

/// Over any sequence of events from a fresh buffer, a batch shorter than a
/// full batch is written only on a timeout or a close.
pub proof fn law_run_short_batches_only_on_timeout_or_close<T>(capacity: nat, events: Seq<BufferEvent<T>>)
    ensures
        run(Seq::<T>::empty(), capacity, events).1.len() == events.len(),
        forall|i: int|
            0 <= i < events.len() ==> {
                let s = #[trigger] run(Seq::<T>::empty(), capacity, events).1[i];
                (step_writes(s) && step_batch(s).len() < batch_limit(capacity)) ==> (events[i] is TimedOut
                    || events[i] is Closed)
            },
    decreases events.len(),
{
    if events.len() > 0 {
        let init = events.drop_last();
        law_run_short_batches_only_on_timeout_or_close(capacity, init);
        law_run_batches_are_bounded(capacity, init);
        let (mid, steps0) = run(Seq::<T>::empty(), capacity, init);
        law_batches_are_bounded(mid, capacity, events.last());
        let (after, s) = next_state(mid, capacity, events.last());
        let steps = steps0.push(s);
        assert forall|i: int| 0 <= i < events.len() implies {
            let t = #[trigger] steps[i];
            (step_writes(t) && step_batch(t).len() < batch_limit(capacity)) ==> (events[i] is TimedOut
                || events[i] is Closed)
        } by {
            if i < init.len() {
                assert(steps[i] == steps0[i]);
                assert(events[i] == init[i]);
            }
        }
    }
}

/// Accumulates entries until a batch is due.
pub struct Batcher<T> {
    entries: Vec<T>,
    capacity: usize,
}

impl<T> Batcher<T> {
    /// Entries received and not yet written.
    pub closed spec fn pending(&self) -> Seq<T> {
        self.entries@
    }

    /// Number of entries that triggers a flush.
    pub closed spec fn capacity(&self) -> nat {
        self.capacity as nat
    }

    #[verifier::type_invariant]
    closed spec fn holds_less_than_a_batch(&self) -> bool {
        pending_ok(self.entries@, self.capacity as nat)
    }

    /// An empty buffer that flushes once `capacity` entries are pending.
    pub fn new(capacity: usize) -> (b: Self)
        ensures
            b.pending() == Seq::<T>::empty(),
            b.capacity() == capacity,
    {
        Batcher { entries: Vec::new(), capacity }
    }

    /// Number of entries that triggers a flush.
    pub fn get_capacity(&self) -> (c: usize)
        ensures
            c == self.capacity(),
    {
        self.capacity
    }

    /// Number of entries received and not yet written.
    pub fn pending_len(&self) -> (n: usize)
        ensures
            n == self.pending().len(),
    {
        self.entries.len()
    }

    /// Records an event and says what the receive loop must do next.
    pub fn step(&mut self, event: BufferEvent<T>) -> (action: BufferAction<T>)
        ensures
            (final(self).pending(), action@) == next_state(old(self).pending(), old(self).capacity(), event),
            final(self).capacity() == old(self).capacity(),
            pending_ok(final(self).pending(), final(self).capacity()),
    {
        proof {
            use_type_invariant(&*self);
        }
        let capacity = self.capacity;
        let mut entries: Vec<T> = Vec::new();
        std::mem::swap(&mut entries, &mut self.entries);
        match event {
            BufferEvent::Received(x) => {
                entries.push(x);
                if entries.len() >= capacity {
                    BufferAction::Flush(entries)
                } else {
                    self.entries = entries;
                    BufferAction::Wait
                }
            },
            BufferEvent::Closed => {
                if entries.len() > 0 {
                    BufferAction::FlushAndStop(entries)
                } else {
                    self.entries = entries;
                    BufferAction::Stop
                }
            },
            BufferEvent::TimedOut => {
                if entries.len() > 0 {
                    BufferAction::Flush(entries)
                } else {
                    self.entries = entries;
                    BufferAction::Wait
                }
            },
        }
    }
}

} // verus!
