use vstd::prelude::*;
use crate::error::ErrorKind;

verus! {

/// Where the supervisor stands in the life of a connection.
#[derive(PartialEq, Eq, Structural, Clone, Copy, Debug)]
pub enum SupervisorState {
    /// Polling until the device is present.
    WaitForDevice,
    /// Opening the link to a present device.
    Opening,
    /// Running the mode: transfer and bridge, or the bridge alone.
    Running,
    /// The link was dropped after a recoverable error; polling until the
    /// device is present again.
    Reconnecting,
    /// The mode ended without error.
    Finished,
    /// A fatal error ended the process.
    Terminated,
}

/// How a run of the mode ended.
#[derive(PartialEq, Eq, Structural, Clone, Copy, Debug)]
pub enum RunOutcome {
    Success,
    Recoverable,
    Fatal,
}

/// What the outside world reports to the supervisor.
#[derive(PartialEq, Eq, Structural, Clone, Copy, Debug)]
pub enum SupervisorEvent {
    /// The result of a presence check of the device.
    DevicePresent(bool),
    /// Whether opening the link succeeded.
    Opened(bool),
    /// How the mode returned.
    RunEnded(RunOutcome),
}

/// What the supervisor asks to be done next.
#[derive(PartialEq, Eq, Structural, Clone, Copy, Debug)]
pub enum SupervisorAction {
    /// Wait a moment and check whether the device is present.
    PollDevice,
    /// Open the link.
    OpenLink,
    /// Run the mode from its start.
    StartRun,
    /// Drop the link, restore the console and tell the user to reconnect.
    ResetAndPrompt,
    /// Clean up and stop.
    Stop,
    /// The device could not be opened: end the process with a failure.
    Abort,
}

/// The state after `event` in state `s`; an event that does not belong to
/// the state leaves it as it is.
pub open spec fn spec_next(s: SupervisorState, event: SupervisorEvent) -> SupervisorState {
    match (s, event) {
        (SupervisorState::WaitForDevice, SupervisorEvent::DevicePresent(true)) => SupervisorState::Opening,
        (SupervisorState::Reconnecting, SupervisorEvent::DevicePresent(true)) => SupervisorState::Opening,
        (SupervisorState::Opening, SupervisorEvent::Opened(true)) => SupervisorState::Running,
        (SupervisorState::Opening, SupervisorEvent::Opened(false)) => SupervisorState::Terminated,
        (SupervisorState::Running, SupervisorEvent::RunEnded(RunOutcome::Success)) => SupervisorState::Finished,
        (SupervisorState::Running, SupervisorEvent::RunEnded(RunOutcome::Recoverable)) => SupervisorState::Reconnecting,
        (SupervisorState::Running, SupervisorEvent::RunEnded(RunOutcome::Fatal)) => SupervisorState::Terminated,
        _ => s,
    }
}

/// The action that goes with moving from `s` to `t`.
pub open spec fn spec_action(s: SupervisorState, t: SupervisorState) -> SupervisorAction {
    match t {
        SupervisorState::WaitForDevice => SupervisorAction::PollDevice,
        SupervisorState::Opening => SupervisorAction::OpenLink,
        SupervisorState::Running => SupervisorAction::StartRun,
        SupervisorState::Reconnecting => if s == SupervisorState::Running {
            SupervisorAction::ResetAndPrompt
        } else {
            SupervisorAction::PollDevice
        },
        SupervisorState::Finished => SupervisorAction::Stop,
        SupervisorState::Terminated => if s == SupervisorState::Opening {
            SupervisorAction::Abort
        } else {
            SupervisorAction::Stop
        },
    }
}

/// The state after a whole sequence of events.
pub open spec fn spec_run(s: SupervisorState, events: Seq<SupervisorEvent>) -> SupervisorState
    decreases events.len(),
{
    if events.len() == 0 {
        s
    } else {
        spec_next(spec_run(s, events.drop_last()), events.last())
    }
}

/// Sorts the result of a run of the mode.
pub fn classify_run(result: &Result<(), ErrorKind>) -> (r: RunOutcome)
    ensures
        result is Ok ==> r == RunOutcome::Success,
        result is Err && result->Err_0.spec_is_recoverable() ==> r == RunOutcome::Recoverable,
        result is Err && !result->Err_0.spec_is_recoverable() ==> r == RunOutcome::Fatal,
{
    match result {
        Ok(()) => RunOutcome::Success,
        Err(e) => if e.is_recoverable() {
            RunOutcome::Recoverable
        } else {
            RunOutcome::Fatal
        },
    }
}

/// Moves the supervisor on by one event and says what to do next.
pub fn step(s: SupervisorState, event: SupervisorEvent) -> (r: (SupervisorState, SupervisorAction))
    ensures
        r.0 == spec_next(s, event),
        r.1 == spec_action(s, r.0),
{
    let t = match (s, event) {
        (SupervisorState::WaitForDevice, SupervisorEvent::DevicePresent(true)) => SupervisorState::Opening,
        (SupervisorState::Reconnecting, SupervisorEvent::DevicePresent(true)) => SupervisorState::Opening,
        (SupervisorState::Opening, SupervisorEvent::Opened(true)) => SupervisorState::Running,
        (SupervisorState::Opening, SupervisorEvent::Opened(false)) => SupervisorState::Terminated,
        (SupervisorState::Running, SupervisorEvent::RunEnded(RunOutcome::Success)) => SupervisorState::Finished,
        (SupervisorState::Running, SupervisorEvent::RunEnded(RunOutcome::Recoverable)) => SupervisorState::Reconnecting,
        (SupervisorState::Running, SupervisorEvent::RunEnded(RunOutcome::Fatal)) => SupervisorState::Terminated,
        _ => s,
    };
    let a = match t {
        SupervisorState::WaitForDevice => SupervisorAction::PollDevice,
        SupervisorState::Opening => SupervisorAction::OpenLink,
        SupervisorState::Running => SupervisorAction::StartRun,
        SupervisorState::Reconnecting => if s == SupervisorState::Running {
            SupervisorAction::ResetAndPrompt
        } else {
            SupervisorAction::PollDevice
        },
        SupervisorState::Finished => SupervisorAction::Stop,
        SupervisorState::Terminated => if s == SupervisorState::Opening {
            SupervisorAction::Abort
        } else {
            SupervisorAction::Stop
        },
    };
    (t, a)
}

proof fn lemma_stays_reconnecting(events: Seq<SupervisorEvent>)
    requires
        forall|i: int| 0 <= i < events.len() ==> #[trigger] events[i] != SupervisorEvent::DevicePresent(true),
    ensures
        spec_run(SupervisorState::Reconnecting, events) == SupervisorState::Reconnecting,
    decreases events.len(),
{
    if events.len() > 0 {
        lemma_stays_reconnecting(events.drop_last());
    }
}

/// Reconnecting: after a recoverable error the supervisor stays in
/// `Reconnecting`, and asks for nothing but polling, until a check reports
/// the device present; so no handshake starts before that.
pub proof fn lemma_no_run_before_device_returns(events: Seq<SupervisorEvent>)
    requires
        forall|i: int| 0 <= i < events.len() ==> #[trigger] events[i] != SupervisorEvent::DevicePresent(true),
    ensures
        spec_run(SupervisorState::Reconnecting, events) == SupervisorState::Reconnecting,
        forall|i: int| 0 <= i < events.len() ==> #[trigger] spec_action(
            spec_run(SupervisorState::Reconnecting, events.take(i)),
            spec_run(SupervisorState::Reconnecting, events.take(i + 1)),
        ) == SupervisorAction::PollDevice,
{
    lemma_stays_reconnecting(events);
    assert forall|i: int| 0 <= i < events.len() implies #[trigger] spec_action(
        spec_run(SupervisorState::Reconnecting, events.take(i)),
        spec_run(SupervisorState::Reconnecting, events.take(i + 1)),
    ) == SupervisorAction::PollDevice by {
        lemma_stays_reconnecting(events.take(i));
        lemma_stays_reconnecting(events.take(i + 1));
    }
}

/// Reconnecting is entered only from a run that ended in a recoverable
/// error, and left only for opening the link once the device is present.
pub proof fn lemma_reconnect_edges(s: SupervisorState, event: SupervisorEvent)
    ensures
        spec_next(s, event) == SupervisorState::Reconnecting && s != SupervisorState::Reconnecting
            ==> s == SupervisorState::Running && event == SupervisorEvent::RunEnded(RunOutcome::Recoverable),
        s == SupervisorState::Reconnecting && spec_next(s, event) != SupervisorState::Reconnecting
            ==> event == SupervisorEvent::DevicePresent(true) && spec_next(s, event) == SupervisorState::Opening,
        spec_next(s, event) == SupervisorState::Running ==> s == SupervisorState::Running || s == SupervisorState::Opening,
{
}

} // verus!
