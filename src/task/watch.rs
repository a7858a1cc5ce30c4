//! The change watcher's decisions: which events count, and how a burst of them becomes one
//! pipeline run.
use vstd::prelude::*;

verus! {

/// A filesystem notification, as far as the watcher reads it.
#[derive(Debug, Clone, Copy, PartialEq, Eq, Structural)]
pub enum EventKind {
    /// A file was closed; `write` if it had been open for writing.
    Close { write: bool },
    /// A name changed: a rename or a move into the directory.
    Rename,
    /// Anything else.
    Other,
}

/// The events that start a run: a writer closed its file, or a file was renamed into place.
/// `None` stands for an error reported by the notification layer.
pub open spec fn is_relevant(ev: Option<EventKind>) -> bool {
    match ev {
        Some(EventKind::Close { write }) => write,
        Some(EventKind::Rename) => true,
        _ => false,
    }
}

/// Whether an event calls for a pipeline run.
pub fn filter_event(ev: Option<EventKind>) -> (r: bool)
    ensures
        r == is_relevant(ev),
{
    match ev {
        Some(EventKind::Close { write }) => write,
        Some(EventKind::Rename) => true,
        _ => false,
    }
}

#[derive(Debug, Clone, Copy, PartialEq, Eq, Structural)]
pub enum WatchState {
    /// Waiting for an event.
    Idle,
    /// A relevant event came; gathering the rest of its burst.
    Gathering,
}

#[derive(Debug, Clone, Copy, PartialEq, Eq, Structural)]
pub enum WatchInput {
    /// An event arrived, or an error (`None`).
    Event(Option<EventKind>),
    /// The quiescence window is over and the queued events are drained.
    Settled,
}

#[derive(Debug, Clone, Copy, PartialEq, Eq, Structural)]
pub enum WatchAction {
    Nothing,
    /// Wait for the quiescence window, then drain the queued events.
    Wait,
    /// Run the pipeline once.
    Trigger,
}

/// Length of the quiescence window in milliseconds.
pub const QUIESCENCE_MS: u64 = 100;

pub open spec fn watch_step(state: WatchState, input: WatchInput) -> (WatchState, WatchAction) {
    match (state, input) {
        (WatchState::Idle, WatchInput::Event(ev)) => if is_relevant(ev) {
            (WatchState::Gathering, WatchAction::Wait)
        } else {
            (WatchState::Idle, WatchAction::Nothing)
        },
        (WatchState::Idle, WatchInput::Settled) => (WatchState::Idle, WatchAction::Nothing),
        (WatchState::Gathering, WatchInput::Event(_)) => (
            WatchState::Gathering,
            WatchAction::Nothing,
        ),
        (WatchState::Gathering, WatchInput::Settled) => (WatchState::Idle, WatchAction::Trigger),
    }
}

/// The debounce: a relevant event while idle starts a quiescence window; the events drained
/// after it join the burst; when it settles, the burst triggers one run.
pub fn step(state: WatchState, input: WatchInput) -> (r: (WatchState, WatchAction))
    ensures
        r == watch_step(state, input),
{
    match state {
        WatchState::Idle => match input {
            WatchInput::Event(ev) => if filter_event(ev) {
                (WatchState::Gathering, WatchAction::Wait)
            } else {
                (WatchState::Idle, WatchAction::Nothing)
            },
            WatchInput::Settled => (WatchState::Idle, WatchAction::Nothing),
        },
        WatchState::Gathering => match input {
            WatchInput::Event(_) => (WatchState::Gathering, WatchAction::Nothing),
            WatchInput::Settled => (WatchState::Idle, WatchAction::Trigger),
        },
    }
}

/// The state reached and the number of runs triggered by a sequence of inputs.
pub open spec fn watch_run(state: WatchState, inputs: Seq<WatchInput>) -> (WatchState, nat)
    decreases inputs.len(),
{
    if inputs.len() == 0 {
        (state, 0)
    } else {
        let (s1, a) = watch_step(state, inputs[0]);
        let (s2, n) = watch_run(s1, inputs.drop_first());
        (s2, if a == WatchAction::Trigger {
            n + 1
        } else {
            n
        })
    }
}

/// The inputs of one burst: its events, then the end of the quiescence window.
pub open spec fn burst(events: Seq<Option<EventKind>>) -> Seq<WatchInput> {
    events.map_values(|e: Option<EventKind>| WatchInput::Event(e)).push(WatchInput::Settled)
}

proof fn lemma_gathering_absorbs(events: Seq<Option<EventKind>>)
    ensures
        watch_run(WatchState::Gathering, burst(events)) == (WatchState::Idle, 1nat),
    decreases events.len(),
{
    let b = burst(events);
    if events.len() == 0 {
        assert(b[0] == WatchInput::Settled);
        assert(b.drop_first() =~= Seq::<WatchInput>::empty());
        assert(watch_run(WatchState::Idle, b.drop_first()) == (WatchState::Idle, 0nat));
    } else {
        assert(b[0] == WatchInput::Event(events[0]));
        assert(b.drop_first() =~= burst(events.drop_first()));
        lemma_gathering_absorbs(events.drop_first());
    }
}

/// A burst whose first event is relevant, whatever follows it before the window settles,
/// triggers exactly one run and leaves the watcher idle.
pub proof fn lemma_burst_triggers_once(events: Seq<Option<EventKind>>)
    requires
        events.len() >= 1,
        is_relevant(events[0]),
    ensures
        watch_run(WatchState::Idle, burst(events)) == (WatchState::Idle, 1nat),
{
    let b = burst(events);
    assert(b[0] == WatchInput::Event(events[0]));
    assert(b.drop_first() =~= burst(events.drop_first()));
    lemma_gathering_absorbs(events.drop_first());
}

/// A burst of `n >= 1` close-after-write events triggers exactly one run, not `n`.
pub proof fn lemma_close_write_burst_triggers_once(n: nat)
    requires
        n >= 1,
    ensures
        watch_run(
            WatchState::Idle,
            burst(Seq::new(n, |i: int| Some(EventKind::Close { write: true }))),
        ).1 == 1,
{
    lemma_burst_triggers_once(Seq::new(n, |i: int| Some(EventKind::Close { write: true })));
}

} // verus!
