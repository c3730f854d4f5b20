//! Debouncing: a burst of raw file-system events becomes one trigger, once
//! the burst has settled.
//!
//! The debouncer remembers the time of the latest event. A poll triggers
//! when a full window has gone by since that event, and with the trigger
//! the debouncer forgets the burst. Times are milliseconds of a clock that
//! never goes back.

use vstd::prelude::*;

verus! {

/// The window of a debouncer where none is configured: 3 seconds.
pub const DEFAULT_WINDOW_MS: u64 = 3_000;

/// The state of one debouncer.
#[derive(Clone, Copy, Debug, PartialEq, Eq)]
pub struct Debouncer {
    /// How long the events must have been quiet, in milliseconds.
    pub window_ms: u64,
    /// The time of the latest event of the burst that has not triggered
    /// yet.
    pub pending: Option<u64>,
}

/// What reaches a debouncer: a raw event or a poll, each with its time.
pub enum Input {
    Event(int),
    Poll(int),
}

impl Input {
    /// When the input happened.
    pub open spec fn time(self) -> int {
        match self {
            Input::Event(t) => t,
            Input::Poll(t) => t,
        }
    }
}

/// A poll at `now` finds the burst whose latest event was at `last`
/// settled.
pub open spec fn has_settled(last: int, window: int, now: int) -> bool {
    now - last >= window
}

/// The state after an input: an event becomes the latest event of the
/// burst, unless a later one is known already; a poll that finds the burst
/// settled ends it.
pub open spec fn after(pending: Option<int>, window: int, input: Input) -> Option<int> {
    match input {
        Input::Event(t) => match pending {
            Some(last) => if last > t {
                Some(last)
            } else {
                Some(t)
            },
            None => Some(t),
        },
        Input::Poll(now) => match pending {
            Some(last) => if has_settled(last, window, now) {
                None
            } else {
                pending
            },
            None => None,
        },
    }
}

/// The input is a poll that triggers.
pub open spec fn triggers(pending: Option<int>, window: int, input: Input) -> bool {
    input matches Input::Poll(now) && pending matches Some(last) && has_settled(last, window, now)
}

/// The state after a sequence of inputs.
pub open spec fn state_after(pending: Option<int>, window: int, inputs: Seq<Input>) -> Option<int>
    decreases inputs.len(),
{
    if inputs.len() == 0 {
        pending
    } else {
        after(state_after(pending, window, inputs.drop_last()), window, inputs.last())
    }
}

/// How many triggers a sequence of inputs produces.
pub open spec fn trigger_count(pending: Option<int>, window: int, inputs: Seq<Input>) -> int
    decreases inputs.len(),
{
    if inputs.len() == 0 {
        0
    } else {
        trigger_count(pending, window, inputs.drop_last()) + if triggers(
            state_after(pending, window, inputs.drop_last()),
            window,
            inputs.last(),
        ) {
            1int
        } else {
            0int
        }
    }
}

/// Some input is an event.
pub open spec fn has_event(inputs: Seq<Input>) -> bool {
    exists|i: int| 0 <= i < inputs.len() && #[trigger] inputs[i] is Event
}

/// Some input is an event at the time `t`.
pub open spec fn is_event_of(inputs: Seq<Input>, t: int) -> bool {
    exists|i: int| 0 <= i < inputs.len() && #[trigger] inputs[i] == Input::Event(t)
}

/// The time `settle` lies a full window or more after every event.
pub open spec fn settles_after(inputs: Seq<Input>, window: int, settle: int) -> bool {
    forall|i: int|
        0 <= i < inputs.len() && #[trigger] inputs[i] is Event ==> has_settled(
            inputs[i].time(),
            window,
            settle,
        )
}

/// Every input happens from `first` on and before `end`.
pub open spec fn all_within(inputs: Seq<Input>, first: int, end: int) -> bool {
    forall|i: int| 0 <= i < inputs.len() ==> first <= (#[trigger] inputs[i]).time() < end
}

/// Every input is a poll.
pub open spec fn polls_only(inputs: Seq<Input>) -> bool {
    forall|i: int| 0 <= i < inputs.len() ==> #[trigger] inputs[i] is Poll
}

impl Debouncer {
    /// The pending event as the contracts hold it.
    pub open spec fn spec_pending(self) -> Option<int> {
        match self.pending {
            Some(t) => Some(t as int),
            None => None,
        }
    }

    /// An idle debouncer with the given window.
    pub fn new(window_ms: u64) -> (d: Debouncer)
        ensures
            d.window_ms == window_ms,
            d.pending is None,
    {
        Debouncer { window_ms, pending: None }
    }

    /// Takes note of a raw event at `at_ms`.
    pub fn on_event(&mut self, at_ms: u64)
        ensures
            final(self).window_ms == old(self).window_ms,
            final(self).spec_pending() == after(
                old(self).spec_pending(),
                old(self).window_ms as int,
                Input::Event(at_ms as int),
            ),
    {
        match self.pending {
            Some(last) => {
                if last <= at_ms {
                    self.pending = Some(at_ms);
                }
            },
            None => {
                self.pending = Some(at_ms);
            },
        }
    }

    /// Polls at `now_ms`. The answer is whether the burst has settled; if
    /// so, this is its one trigger and the debouncer is idle again.
    pub fn poll(&mut self, now_ms: u64) -> (fire: bool)
        ensures
            final(self).window_ms == old(self).window_ms,
            fire == triggers(
                old(self).spec_pending(),
                old(self).window_ms as int,
                Input::Poll(now_ms as int),
            ),
            final(self).spec_pending() == after(
                old(self).spec_pending(),
                old(self).window_ms as int,
                Input::Poll(now_ms as int),
            ),
    {
        match self.pending {
            Some(last) => {
                if now_ms >= last && now_ms - last >= self.window_ms {
                    self.pending = None;
                    true
                } else {
                    false
                }
            },
            None => false,
        }
    }

    /// When to poll next: the moment at which the burst will have settled
    /// if no further event comes; nothing while the debouncer is idle.
    pub fn deadline(&self) -> (r: Option<u64>)
        ensures
            match r {
                Some(at) => self.pending matches Some(last) && at == if last + self.window_ms
                    > u64::MAX {
                    u64::MAX
                } else {
                    (last + self.window_ms) as u64
                },
                None => self.pending is None,
            },
    {
        match self.pending {
            Some(last) => match last.checked_add(self.window_ms) {
                Some(at) => Some(at),
                None => Some(u64::MAX),
            },
            None => None,
        }
    }
}

/// Running two sequences of inputs one after the other.
pub proof fn lemma_run_in_two(pending: Option<int>, window: int, a: Seq<Input>, b: Seq<Input>)
    ensures
        state_after(pending, window, a + b) == state_after(
            state_after(pending, window, a),
            window,
            b,
        ),
        trigger_count(pending, window, a + b) == trigger_count(pending, window, a) + trigger_count(
            state_after(pending, window, a),
            window,
            b,
        ),
    decreases b.len(),
{
    if b.len() > 0 {
        lemma_run_in_two(pending, window, a, b.drop_last());
        assert((a + b).drop_last() =~= a + b.drop_last());
    }
}

/// Nothing triggers while a burst lasts. Where every input happens
/// within one window, no poll triggers, and afterwards the debouncer holds
/// an event of the burst if there was one.
pub proof fn lemma_burst_is_quiet(window: int, inputs: Seq<Input>, first: int)
    requires
        all_within(inputs, first, first + window),
    ensures
        trigger_count(None, window, inputs) == 0,
        match state_after(None, window, inputs) {
            Some(last) => first <= last < first + window && is_event_of(inputs, last),
            None => !has_event(inputs),
        },
    decreases inputs.len(),
{
    if inputs.len() > 0 {
        let front = inputs.drop_last();
        assert forall|i: int| 0 <= i < front.len() implies first <= (#[trigger] front[i]).time()
            < first + window by {}
        lemma_burst_is_quiet(window, front, first);
        match state_after(None, window, front) {
            Some(last) => {
                let i = choose|i: int| 0 <= i < front.len() && #[trigger] front[i] == Input::Event(last);
                assert(inputs[i] == Input::Event(last));
            },
            None => {},
        }
        if has_event(inputs) && !has_event(front) {
            let i = choose|i: int| 0 <= i < inputs.len() && #[trigger] inputs[i] is Event;
            if i < front.len() {
                assert(front[i] is Event);
            }
        }
    }
}

/// Polls alone trigger nothing on an idle debouncer.
pub proof fn lemma_idle_polls(window: int, inputs: Seq<Input>)
    requires
        polls_only(inputs),
    ensures
        trigger_count(None, window, inputs) == 0,
        state_after(None, window, inputs) is None,
    decreases inputs.len(),
{
    if inputs.len() > 0 {
        let front = inputs.drop_last();
        assert forall|i: int| 0 <= i < front.len() implies #[trigger] front[i] is Poll by {}
        lemma_idle_polls(window, front);
    }
}

/// One burst, one trigger. Events that all fall within one debounce
/// window, however many they are and whatever polls come between them,
/// produce exactly one trigger: that of the first poll after the window
/// has gone by. Polls after it produce none.
pub proof fn lemma_one_trigger_per_burst(
    window: int,
    burst: Seq<Input>,
    first: int,
    settle: int,
    later: Seq<Input>,
)
    requires
        all_within(burst, first, first + window),
        has_event(burst),
        settles_after(burst, window, settle),
        polls_only(later),
    ensures
        trigger_count(None, window, burst) == 0,
        trigger_count(None, window, (burst + seq![Input::Poll(settle)]) + later) == 1,
        state_after(None, window, (burst + seq![Input::Poll(settle)]) + later) is None,
{
    let poll = seq![Input::Poll(settle)];
    lemma_burst_is_quiet(window, burst, first);
    lemma_run_in_two(None, window, burst, poll);
    let held = state_after(None, window, burst);
    let none = Seq::<Input>::empty();
    assert(poll.drop_last() =~= none);
    assert(trigger_count(held, window, none) == 0);
    match held {
        Some(last) => {
        },
        None => {
        },
    }
    lemma_run_in_two(None, window, burst + poll, later);
    lemma_idle_polls(window, later);
}

} // verus!
