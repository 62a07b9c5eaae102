//! The debounce filter of the filesystem watch loop: which events qualify,
//! which qualifying events are accepted, and the laws of a burst and of
//! well-spaced events.

use vstd::prelude::*;

verus! {

/// The kind of a filesystem notification, as the watch loop classifies it.
#[derive(Debug, Clone, Copy, PartialEq, Eq)]
pub enum WatchEventKind {
    Create,
    Modify,
    Remove,
    Other,
}

/// Only create, modify and remove notifications qualify for a rebuild.
pub open spec fn spec_should_trigger(k: WatchEventKind) -> bool {
    !(k is Other)
}

pub fn should_trigger(k: WatchEventKind) -> (r: bool)
    ensures
        r == spec_should_trigger(k),
{
    match k {
        WatchEventKind::Other => false,
        _ => true,
    }
}

/// The watch loop's state: the timestamp of the last accepted qualifying
/// event, and the fixed debounce window. Both in milliseconds.
#[derive(Debug, Clone, Copy, PartialEq, Eq)]
pub struct WatchState {
    pub last_accepted_ms: u64,
    pub debounce_ms: u64,
}

impl WatchState {
    /// A fresh state: the loop's start counts as the last accepted event.
    pub fn new(now_ms: u64, debounce_ms: u64) -> (r: WatchState)
        ensures
            r.last_accepted_ms == now_ms,
            r.debounce_ms == debounce_ms,
    {
        WatchState { last_accepted_ms: now_ms, debounce_ms }
    }

    /// An event is accepted exactly when it qualifies and more than a full
    /// debounce window has elapsed since the last accepted event. An event
    /// whose clock reads at or before the last accepted one is dropped.
    pub open spec fn spec_accepts(self, k: WatchEventKind, now_ms: u64) -> bool {
        spec_should_trigger(k) && now_ms > self.last_accepted_ms + self.debounce_ms
    }

    /// Observes one event: returns whether it triggers a rebuild, and
    /// marks it as the last accepted event exactly when it does. Dropped
    /// events are not queued: they leave the state unchanged.
    pub fn observe(&mut self, k: WatchEventKind, now_ms: u64) -> (r: bool)
        ensures
            r == old(self).spec_accepts(k, now_ms),
            r ==> *final(self) == (WatchState {
                last_accepted_ms: now_ms,
                ..*old(self)
            }),
            !r ==> *final(self) == *old(self),
    {
        let qualifying = should_trigger(k);
        if qualifying && now_ms > self.last_accepted_ms && now_ms - self.last_accepted_ms
            > self.debounce_ms {
            self.last_accepted_ms = now_ms;
            true
        } else {
            false
        }
    }
}

/// The state and the number of rebuilds after a sequence of timed events
/// is observed in order.
pub open spec fn spec_run(st: WatchState, events: Seq<(WatchEventKind, u64)>) -> (
    WatchState,
    int,
)
    decreases events.len(),
{
    if events.len() == 0 {
        (st, 0)
    } else {
        let k = events[0].0;
        let t = events[0].1;
        if st.spec_accepts(k, t) {
            let rest = spec_run(
                WatchState { last_accepted_ms: t, ..st },
                events.drop_first(),
            );
            (rest.0, 1 + rest.1)
        } else {
            spec_run(st, events.drop_first())
        }
    }
}

/// No event at or before the end of the current debounce window triggers
/// anything: the whole sequence produces no rebuild and leaves the state
/// unchanged.
pub proof fn lemma_debounce_quiet(st: WatchState, events: Seq<(WatchEventKind, u64)>)
    requires
        forall|i: int|
            0 <= i < events.len() ==> (#[trigger] events[i]).1 <= st.last_accepted_ms
                + st.debounce_ms,
    ensures
        spec_run(st, events) == (st, 0int),
    decreases events.len(),
{
    if events.len() > 0 {
        assert(events[0].1 <= st.last_accepted_ms + st.debounce_ms);
        assert(forall|i: int|
            0 <= i < events.drop_first().len() ==> (#[trigger] events.drop_first()[i]).1
                <= st.last_accepted_ms + st.debounce_ms);
        lemma_debounce_quiet(st, events.drop_first());
    }
}

/// The law of a burst: when the first event is accepted — it qualifies
/// and lies beyond the window of the last accepted event, which at the
/// loop's start is the start itself — and every later event of the
/// sequence lands within one debounce window of it, exactly one rebuild is
/// produced; the rest are dropped, not queued.
pub proof fn lemma_debounce_burst(st: WatchState, events: Seq<(WatchEventKind, u64)>)
    requires
        events.len() > 0,
        st.spec_accepts(events[0].0, events[0].1),
        forall|i: int|
            1 <= i < events.len() ==> (#[trigger] events[i]).1 <= events[0].1 + st.debounce_ms,
    ensures
        spec_run(st, events).1 == 1,
{
    let st2 = WatchState { last_accepted_ms: events[0].1, ..st };
    assert(forall|i: int|
        0 <= i < events.drop_first().len() ==> (#[trigger] events.drop_first()[i]).1
            <= st2.last_accepted_ms + st2.debounce_ms);
    lemma_debounce_quiet(st2, events.drop_first());
}

/// The law of spaced events: when every event qualifies, the first lies
/// beyond the window of the last accepted event — at the loop's start, the
/// start itself — and each one lies more than a full debounce window after
/// the one before it, every event produces its own rebuild.
pub proof fn lemma_debounce_spaced(st: WatchState, events: Seq<(WatchEventKind, u64)>)
    requires
        events.len() > 0,
        forall|i: int| 0 <= i < events.len() ==> spec_should_trigger((#[trigger] events[i]).0),
        events[0].1 > st.last_accepted_ms + st.debounce_ms,
        forall|i: int|
            1 <= i < events.len() ==> (#[trigger] events[i]).1 > events[i - 1].1 + st.debounce_ms,
    ensures
        spec_run(st, events).1 == events.len(),
    decreases events.len(),
{
    let st2 = WatchState { last_accepted_ms: events[0].1, ..st };
    assert(st.spec_accepts(events[0].0, events[0].1));
    assert(spec_run(st, events).1 == 1 + spec_run(st2, events.drop_first()).1);
    if events.len() > 1 {
        let rest = events.drop_first();
        assert(rest[0] == events[1]);
        assert(rest[0].1 > st2.last_accepted_ms + st2.debounce_ms);
        assert(forall|i: int|
            0 <= i < rest.len() ==> spec_should_trigger((#[trigger] rest[i]).0));
        assert(forall|i: int|
            1 <= i < rest.len() ==> (#[trigger] rest[i]).1 > rest[i - 1].1 + st2.debounce_ms);
        lemma_debounce_spaced(st2, rest);
    } else {
        assert(events.drop_first().len() == 0);
        assert(spec_run(st2, events.drop_first()).1 == 0);
    }
}

} // verus!
