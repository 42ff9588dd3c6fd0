//! The controller's loop as a state machine.
//!
//! One tick is: read the cancellation flag, advance the projectiles,
//! broadcast the world, wait a bounded time for one intent and apply it. The
//! machine decides what comes next from what just happened; the embedding
//! program does the waiting, the sending and the reading of the flag.

use vstd::prelude::*;
use vstd::string::*;

verus! {

/// Lifecycle of the controller.
#[derive(Clone, Copy, Debug, PartialEq, Eq, Structural)]
pub enum ControllerState {
    /// The loop runs.
    Running,
    /// Cancellation was asked for; the tick in progress is being finished.
    Cancelling,
    /// The loop has ended. This state is never left.
    Stopped,
}

/// The step of a tick that the loop stands before.
#[derive(Clone, Copy, Debug, PartialEq, Eq, Structural)]
pub enum LoopStep {
    Poll,
    Advance,
    Broadcast,
    Await,
    Dispatch,
}

/// What the embedding program reports to the machine.
#[derive(Debug, PartialEq, Eq)]
pub enum LoopEvent {
    /// The cancellation flag was read at the top of the loop.
    Polled(bool),
    /// The projectiles were advanced, or advancing them failed.
    Progressed(Result<(), String>),
    /// The snapshot went out, or the transport refused it.
    BroadcastDone(Result<(), String>),
    /// An intent arrived within the wait.
    Received,
    /// The wait ran out with no intent.
    TimedOut,
    /// The queue can never deliver again: every sender is gone.
    Disconnected,
    /// The intent was applied, or the world refused it.
    Dispatched(Result<(), String>),
}

/// What the embedding program is to do next.
#[derive(Debug, PartialEq, Eq)]
pub enum LoopAction {
    /// Read the cancellation flag.
    Poll,
    /// Advance the projectiles to the present.
    Advance,
    /// Broadcast the world to every connection.
    Broadcast,
    /// Wait for one intent, no longer than the configured time.
    Await,
    /// Apply the intent that arrived.
    Dispatch,
    /// Leave the loop with this result.
    Exit(Result<(), String>),
    /// Nothing: the loop has ended before.
    Halted,
}

/// An outcome with its error text as a sequence of characters.
pub open spec fn outcome_view(r: Result<(), String>) -> Result<(), Seq<char>> {
    match r {
        Ok(_) => Ok(()),
        Err(msg) => Err(msg@),
    }
}

/// An event with its texts as sequences of characters.
pub enum LoopEventView {
    Polled(bool),
    Progressed(Result<(), Seq<char>>),
    BroadcastDone(Result<(), Seq<char>>),
    Received,
    TimedOut,
    Disconnected,
    Dispatched(Result<(), Seq<char>>),
}

impl View for LoopEvent {
    type V = LoopEventView;

    open spec fn view(&self) -> LoopEventView {
        match *self {
            LoopEvent::Polled(flag) => LoopEventView::Polled(flag),
            LoopEvent::Progressed(r) => LoopEventView::Progressed(outcome_view(r)),
            LoopEvent::BroadcastDone(r) => LoopEventView::BroadcastDone(outcome_view(r)),
            LoopEvent::Received => LoopEventView::Received,
            LoopEvent::TimedOut => LoopEventView::TimedOut,
            LoopEvent::Disconnected => LoopEventView::Disconnected,
            LoopEvent::Dispatched(r) => LoopEventView::Dispatched(outcome_view(r)),
        }
    }
}

/// An action with its text as a sequence of characters.
pub enum LoopActionView {
    Poll,
    Advance,
    Broadcast,
    Await,
    Dispatch,
    Exit(Result<(), Seq<char>>),
    Halted,
}

impl View for LoopAction {
    type V = LoopActionView;

    open spec fn view(&self) -> LoopActionView {
        match *self {
            LoopAction::Poll => LoopActionView::Poll,
            LoopAction::Advance => LoopActionView::Advance,
            LoopAction::Broadcast => LoopActionView::Broadcast,
            LoopAction::Await => LoopActionView::Await,
            LoopAction::Dispatch => LoopActionView::Dispatch,
            LoopAction::Exit(r) => LoopActionView::Exit(outcome_view(r)),
            LoopAction::Halted => LoopActionView::Halted,
        }
    }
}

/// Where the loop stands: its lifecycle state and the step it is before.
pub struct LoopPosition {
    pub state: ControllerState,
    pub step: LoopStep,
}

/// The action that asks for a step.
pub open spec fn action_for(step: LoopStep) -> LoopActionView {
    match step {
        LoopStep::Poll => LoopActionView::Poll,
        LoopStep::Advance => LoopActionView::Advance,
        LoopStep::Broadcast => LoopActionView::Broadcast,
        LoopStep::Await => LoopActionView::Await,
        LoopStep::Dispatch => LoopActionView::Dispatch,
    }
}

/// The loop goes on with `step`.
pub open spec fn go_on(at: LoopPosition, step: LoopStep) -> (LoopPosition, LoopActionView) {
    (LoopPosition { state: at.state, step: step }, action_for(step))
}

/// The loop ends with `result`.
pub open spec fn end_with(at: LoopPosition, result: Result<(), Seq<char>>) -> (
    LoopPosition,
    LoopActionView,
) {
    (LoopPosition { state: ControllerState::Stopped, step: at.step }, LoopActionView::Exit(result))
}

/// The text of the error for a queue that can never deliver again.
pub open spec fn disconnected_message() -> Seq<char> {
    "update channel disconnected"@
}

/// The machine's rule: where the loop stands after an event, and what is to
/// be done next.
///
/// Once stopped, the loop stays stopped. At the top of the loop it ends
/// without error if the flag is raised or cancellation was asked for, and
/// else starts a tick. A failure to advance or to broadcast ends the loop
/// with that error, and so does a queue that can never deliver again. A wait
/// that runs out starts the next iteration; an intent is dispatched first,
/// and whether the world took or refused it, the next iteration follows. An
/// event that does not belong to the step the loop stands before changes
/// nothing, and the step is asked for again.
pub open spec fn transition(at: LoopPosition, event: LoopEventView) -> (
    LoopPosition,
    LoopActionView,
) {
    if at.state == ControllerState::Stopped {
        (at, LoopActionView::Halted)
    } else {
        match (at.step, event) {
            (LoopStep::Poll, LoopEventView::Polled(flag)) => if flag || at.state
                == ControllerState::Cancelling {
                end_with(at, Ok(()))
            } else {
                go_on(at, LoopStep::Advance)
            },
            (LoopStep::Advance, LoopEventView::Progressed(Ok(_))) => go_on(at, LoopStep::Broadcast),
            (LoopStep::Advance, LoopEventView::Progressed(Err(msg))) => end_with(at, Err(msg)),
            (LoopStep::Broadcast, LoopEventView::BroadcastDone(Ok(_))) => go_on(
                at,
                LoopStep::Await,
            ),
            (LoopStep::Broadcast, LoopEventView::BroadcastDone(Err(msg))) => end_with(
                at,
                Err(msg),
            ),
            (LoopStep::Await, LoopEventView::Received) => go_on(at, LoopStep::Dispatch),
            (LoopStep::Await, LoopEventView::TimedOut) => go_on(at, LoopStep::Poll),
            (LoopStep::Await, LoopEventView::Disconnected) => end_with(
                at,
                Err(disconnected_message()),
            ),
            (LoopStep::Dispatch, LoopEventView::Dispatched(_)) => go_on(at, LoopStep::Poll),
            _ => (at, action_for(at.step)),
        }
    }
}

/// The controller's loop.
#[derive(Clone, Copy, Debug, PartialEq, Eq)]
pub struct ControlLoop {
    state: ControllerState,
    step: LoopStep,
}

impl ControlLoop {
    /// Where the loop stands.
    pub closed spec fn position(&self) -> LoopPosition {
        LoopPosition { state: self.state, step: self.step }
    }

    /// A running loop at the top of its first iteration.
    pub fn new() -> (l: ControlLoop)
        ensures
            l.position() == (LoopPosition { state: ControllerState::Running, step: LoopStep::Poll }),
    {
        ControlLoop { state: ControllerState::Running, step: LoopStep::Poll }
    }

    /// The lifecycle state.
    pub fn state(&self) -> (s: ControllerState)
        ensures
            s == self.position().state,
    {
        self.state
    }

    /// The step the loop stands before.
    pub fn step(&self) -> (s: LoopStep)
        ensures
            s == self.position().step,
    {
        self.step
    }

    /// Asks a running loop to stop. The tick in progress is not cut short:
    /// the step stays, and the loop ends when it next reads the flag. A loop
    /// that is stopping or stopped stays as it is.
    pub fn request_cancel(&mut self)
        ensures
            final(self).position().step == old(self).position().step,
            final(self).position().state == if old(self).position().state
                == ControllerState::Running {
                ControllerState::Cancelling
            } else {
                old(self).position().state
            },
    {
        match self.state {
            ControllerState::Running => {
                self.state = ControllerState::Cancelling;
            },
            _ => {},
        }
    }

    /// Takes one event and says what is to be done next, by the rule of
    /// `transition`.
    pub fn advance(&mut self, event: LoopEvent) -> (action: LoopAction)
        ensures
            (final(self).position(), action@) == transition(old(self).position(), event@),
    {
        match self.state {
            ControllerState::Stopped => {
                return LoopAction::Halted;
            },
            _ => {},
        }
        match (self.step, event) {
            (LoopStep::Poll, LoopEvent::Polled(flag)) => {
                let cancelling = match self.state {
                    ControllerState::Cancelling => true,
                    _ => false,
                };
                if flag || cancelling {
                    self.state = ControllerState::Stopped;
                    LoopAction::Exit(Ok(()))
                } else {
                    self.step = LoopStep::Advance;
                    LoopAction::Advance
                }
            },
            (LoopStep::Advance, LoopEvent::Progressed(Ok(_))) => {
                self.step = LoopStep::Broadcast;
                LoopAction::Broadcast
            },
            (LoopStep::Advance, LoopEvent::Progressed(Err(msg))) => {
                self.state = ControllerState::Stopped;
                LoopAction::Exit(Err(msg))
            },
            (LoopStep::Broadcast, LoopEvent::BroadcastDone(Ok(_))) => {
                self.step = LoopStep::Await;
                LoopAction::Await
            },
            (LoopStep::Broadcast, LoopEvent::BroadcastDone(Err(msg))) => {
                self.state = ControllerState::Stopped;
                LoopAction::Exit(Err(msg))
            },
            (LoopStep::Await, LoopEvent::Received) => {
                self.step = LoopStep::Dispatch;
                LoopAction::Dispatch
            },
            (LoopStep::Await, LoopEvent::TimedOut) => {
                self.step = LoopStep::Poll;
                LoopAction::Poll
            },
            (LoopStep::Await, LoopEvent::Disconnected) => {
                self.state = ControllerState::Stopped;
                LoopAction::Exit(Err(String::from_str("update channel disconnected")))
            },
            (LoopStep::Dispatch, LoopEvent::Dispatched(_)) => {
                self.step = LoopStep::Poll;
                LoopAction::Poll
            },
            _ => match self.step {
                LoopStep::Poll => LoopAction::Poll,
                LoopStep::Advance => LoopAction::Advance,
                LoopStep::Broadcast => LoopAction::Broadcast,
                LoopStep::Await => LoopAction::Await,
                LoopStep::Dispatch => LoopAction::Dispatch,
            },
        }
    }
}

/// Stopped is final: no event moves a stopped loop or asks for anything.
pub proof fn law_stopped_is_final(at: LoopPosition, event: LoopEventView)
    requires
        at.state == ControllerState::Stopped,
    ensures
        transition(at, event) == (at, LoopActionView::Halted),
{
}

/// Whether an event ends a loop that stands at `at` and has not ended.
pub open spec fn ends_loop(at: LoopPosition, event: LoopEventView) -> bool {
    match (at.step, event) {
        (LoopStep::Poll, LoopEventView::Polled(flag)) => flag || at.state
            == ControllerState::Cancelling,
        (LoopStep::Advance, LoopEventView::Progressed(Err(_))) => true,
        (LoopStep::Broadcast, LoopEventView::BroadcastDone(Err(_))) => true,
        (LoopStep::Await, LoopEventView::Disconnected) => true,
        _ => false,
    }
}

/// The loop ends only at the top of an iteration or on a failure. An event
/// stops a loop that was not stopped only if it is the reading of the flag at
/// the top of the loop, with the flag raised or cancellation asked for, or a
/// failure to advance or to broadcast, or the loss of the queue; and a loop
/// that cancellation was asked of ends at its next reading of the flag.
pub proof fn law_loop_ends(at: LoopPosition, event: LoopEventView)
    requires
        at.state != ControllerState::Stopped,
    ensures
        transition(at, event).0.state == ControllerState::Stopped <==> ends_loop(at, event),
        transition(at, event).0.state != ControllerState::Stopped ==> transition(at, event).0.state
            == at.state,
{
}

/// One dispatch per intent, and no broadcast in between. The machine asks for
/// a dispatch exactly when an intent has just arrived, or when it is still
/// waiting to hear how the dispatch went; and from the arrival of an intent
/// until its dispatch is reported, it asks for nothing else, so that no
/// snapshot is taken of a world to which an intent is half applied.
pub proof fn law_one_dispatch_per_intent(at: LoopPosition, event: LoopEventView)
    requires
        at.state != ControllerState::Stopped,
    ensures
        transition(at, event).1 == LoopActionView::Dispatch <==> {
            ||| at.step == LoopStep::Await && event == LoopEventView::Received
            ||| at.step == LoopStep::Dispatch && !(event is Dispatched)
        },
        at.step == LoopStep::Dispatch ==> {
            ||| transition(at, event) == (at, LoopActionView::Dispatch)
            ||| event is Dispatched && transition(at, event) == go_on(at, LoopStep::Poll)
        },
{
}

/// An intent shows in the next broadcast. Once a running loop hears how a
/// dispatch went, and the flag is not raised and the projectiles advance,
/// the next thing it asks for after reading the flag and advancing is the
/// broadcast: the snapshot that follows an intent is taken after the intent
/// was applied, and after one more projectile step.
pub proof fn law_broadcast_follows_dispatch(
    at: LoopPosition,
    outcome: Result<(), Seq<char>>,
)
    requires
        at.state == ControllerState::Running,
        at.step == LoopStep::Dispatch,
    ensures
        ({
            let (polling, first) = transition(at, LoopEventView::Dispatched(outcome));
            let (advancing, second) = transition(polling, LoopEventView::Polled(false));
            let (broadcasting, third) = transition(advancing, LoopEventView::Progressed(Ok(())));
            &&& first == LoopActionView::Poll
            &&& second == LoopActionView::Advance
            &&& third == LoopActionView::Broadcast
            &&& broadcasting.state == ControllerState::Running
        }),
{
}

} // verus!
