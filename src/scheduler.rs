//! The decisions of the render loop: when to render, poll, sleep or stop.
//! The loop itself, which performs the actions and waits for events, runs
//! outside the library.
use vstd::prelude::*;

verus! {

/// Where the render loop stands.
#[derive(Clone, Copy, Debug, PartialEq, Eq, Structural)]
pub enum Phase {
    /// Asleep until something wakes it.
    Idle,
    /// A full render pass is under way.
    Rendering,
    /// Painted; the components' `poll_change` is being asked.
    Waiting,
    /// Done for good.
    Stopped,
}

/// What the loop observed.
#[derive(Clone, Copy, Debug, PartialEq, Eq, Structural)]
pub enum LoopEvent {
    /// A state cell was written, a task finished or the terminal resized.
    Wake,
    /// The render pass finished painting.
    Painted,
    /// The components were polled; holds whether any asked for a repaint.
    Polled(bool),
    /// The root was destroyed or a halt was requested.
    Stop,
}

/// What the loop must do next.
#[derive(Clone, Copy, Debug, PartialEq, Eq, Structural)]
pub enum LoopAction {
    /// Run one full reconciliation, layout and paint.
    RenderPass,
    /// Ask every instance's `poll_change`.
    PollChanges,
    /// Block until the next wake.
    Sleep,
    /// Cancel all tasks, flush the static region and return.
    Shutdown,
    /// Nothing to do for this event.
    Nothing,
}

/// The loop's state: its phase, and whether a wake arrived that no render
/// pass has answered yet.
#[derive(Clone, Copy, Debug, PartialEq, Eq, Structural)]
pub struct LoopState {
    pub phase: Phase,
    pub wake_pending: bool,
}

/// The loop's next state and action on an event.
pub open spec fn next(s: LoopState, e: LoopEvent) -> (LoopState, LoopAction) {
    match (s.phase, e) {
        (Phase::Stopped, _) => (s, LoopAction::Nothing),
        (_, LoopEvent::Stop) => (
            LoopState { phase: Phase::Stopped, wake_pending: false },
            LoopAction::Shutdown,
        ),
        (Phase::Idle, LoopEvent::Wake) => (
            LoopState { phase: Phase::Rendering, wake_pending: false },
            LoopAction::RenderPass,
        ),
        (_, LoopEvent::Wake) => (LoopState { wake_pending: true, ..s }, LoopAction::Nothing),
        (Phase::Rendering, LoopEvent::Painted) => (
            LoopState { phase: Phase::Waiting, ..s },
            LoopAction::PollChanges,
        ),
        (Phase::Waiting, LoopEvent::Polled(ready)) => if ready || s.wake_pending {
            (LoopState { phase: Phase::Rendering, wake_pending: false }, LoopAction::RenderPass)
        } else {
            (LoopState { phase: Phase::Idle, wake_pending: false }, LoopAction::Sleep)
        },
        _ => (s, LoopAction::Nothing),
    }
}

/// A loop sleeps or stops only with no wake left unanswered.
pub open spec fn loop_wf(s: LoopState) -> bool {
    (s.phase == Phase::Idle || s.phase == Phase::Stopped) ==> !s.wake_pending
}

/// The state after a sequence of events.
pub open spec fn after_events(s: LoopState, events: Seq<LoopEvent>) -> LoopState
    decreases events.len(),
{
    if events.len() == 0 {
        s
    } else {
        next(after_events(s, events.drop_last()), events.last()).0
    }
}

/// The action the loop takes on event `k` of a sequence.
pub open spec fn action_at(s: LoopState, events: Seq<LoopEvent>, k: int) -> LoopAction {
    next(after_events(s, events.take(k)), events[k]).1
}

/// A wake that no pass has answered stays remembered while the loop renders
/// and polls, until it starts a render pass.
proof fn lemma_wake_held(s: LoopState, events: Seq<LoopEvent>, k: int)
    requires
        s.phase != Phase::Stopped,
        events.len() > 0,
        events[0] == LoopEvent::Wake,
        forall|i: int| 0 <= i < events.len() ==> events[i] != LoopEvent::Stop,
        1 <= k <= events.len(),
        forall|j: int| 0 <= j < k ==> action_at(s, events, j) != LoopAction::RenderPass,
    ensures
        after_events(s, events.take(k)).wake_pending,
        after_events(s, events.take(k)).phase == Phase::Rendering || after_events(
            s,
            events.take(k),
        ).phase == Phase::Waiting,
    decreases k,
{
    assert(events.take(k).drop_last() =~= events.take(k - 1));
    assert(events.take(k).last() == events[k - 1]);
    if k == 1 {
        assert(events.take(0) =~= Seq::<LoopEvent>::empty());
        assert(action_at(s, events, 0) != LoopAction::RenderPass);
    } else {
        lemma_wake_held(s, events, k - 1);
        assert(action_at(s, events, k - 1) != LoopAction::RenderPass);
        assert(events[k - 1] != LoopEvent::Stop);
    }
}

/// No wake is lost: once a wake reaches a running loop, the loop does not
/// go to sleep before it has started a render pass, whatever events follow
/// short of a stop.
pub proof fn lemma_no_missed_wakeup(s: LoopState, events: Seq<LoopEvent>)
    requires
        s.phase != Phase::Stopped,
        events.len() > 0,
        events[0] == LoopEvent::Wake,
        forall|i: int| 0 <= i < events.len() ==> events[i] != LoopEvent::Stop,
    ensures
        forall|k: int|
            0 <= k < events.len() && (forall|j: int|
                0 <= j < k ==> action_at(s, events, j) != LoopAction::RenderPass) ==> #[trigger] action_at(
                s,
                events,
                k,
            ) != LoopAction::Sleep,
{
    assert forall|k: int|
        0 <= k < events.len() && (forall|j: int|
            0 <= j < k ==> action_at(s, events, j) != LoopAction::RenderPass) implies #[trigger] action_at(
        s,
        events,
        k,
    ) != LoopAction::Sleep by {
        if k == 0 {
            assert(events.take(0) =~= Seq::<LoopEvent>::empty());
        } else {
            lemma_wake_held(s, events, k);
            assert(events[k] != LoopEvent::Stop);
        }
    }
}

impl LoopState {
    /// A loop about to render its first frame.
    pub fn new() -> (r: LoopState)
        ensures
            r == (LoopState { phase: Phase::Rendering, wake_pending: false }),
            loop_wf(r),
    {
        LoopState { phase: Phase::Rendering, wake_pending: false }
    }

    /// Takes one event: moves to the next phase and returns the action to
    /// perform. Wakes that arrive while rendering or polling are remembered
    /// and answered by one further pass, however many arrived.
    pub fn step(&mut self, e: LoopEvent) -> (r: LoopAction)
        requires
            loop_wf(*old(self)),
        ensures
            (*final(self), r) == next(*old(self), e),
            loop_wf(*final(self)),
    {
        match (self.phase, e) {
            (Phase::Stopped, _) => LoopAction::Nothing,
            (_, LoopEvent::Stop) => {
                self.phase = Phase::Stopped;
                self.wake_pending = false;
                LoopAction::Shutdown
            },
            (Phase::Idle, LoopEvent::Wake) => {
                self.phase = Phase::Rendering;
                LoopAction::RenderPass
            },
            (_, LoopEvent::Wake) => {
                self.wake_pending = true;
                LoopAction::Nothing
            },
            (Phase::Rendering, LoopEvent::Painted) => {
                self.phase = Phase::Waiting;
                LoopAction::PollChanges
            },
            (Phase::Waiting, LoopEvent::Polled(ready)) => {
                let again = ready || self.wake_pending;
                self.wake_pending = false;
                if again {
                    self.phase = Phase::Rendering;
                    LoopAction::RenderPass
                } else {
                    self.phase = Phase::Idle;
                    LoopAction::Sleep
                }
            },
            _ => LoopAction::Nothing,
        }
    }
}

} // verus!
