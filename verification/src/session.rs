//! One supervision request, from the moment the guard is acquired to its
//! end, as a machine that turns what the outside world reports into the
//! next thing to do.

use crate::error::SupervisionError;
use vstd::prelude::*;
use vstd::string::StringExecFns;

verus! {

/// The three requests that a caller can make of a supervised child.
#[derive(Clone, Copy, Debug, PartialEq, Eq, Structural)]
pub enum Operation {
    /// Push the child's output lines to a sink.
    Stream,
    /// Wait for the process to exit.
    Wait,
    /// Ask the process to terminate.
    Kill,
}

/// Where a request stands.
#[derive(Clone, Copy, Debug, PartialEq, Eq, Structural)]
pub enum Phase {
    /// The guard is held and one call on the handle is in flight.
    Holding,
    /// The guard has been given back and the output lines are being read.
    Consuming,
    /// The request is over.
    Finished,
}

/// What the outside world reports back to a request.
#[derive(Debug, PartialEq, Eq)]
pub enum Event {
    /// The standard output was duplicated into a line stream.
    Duplicated,
    /// The standard output could not be duplicated.
    DuplicationFailed(String),
    /// The process has exited, with the status code if one was reported.
    Exited(Option<i32>),
    /// Waiting for the process failed.
    WaitFailed(String),
    /// The termination signal was sent.
    KillSent,
    /// The termination signal could not be sent.
    KillFailed(String),
    /// The line stream yielded a line.
    Line(String),
    /// The line stream yielded a read error.
    ReadFailed(String),
    /// The line stream ended.
    Closed,
}

/// How a request ended.
#[derive(Debug, PartialEq, Eq)]
pub enum Outcome {
    /// No handle was present: there was nothing to stream.
    NothingToStream,
    /// The output could not be duplicated; the cause is for the local log only.
    DuplicationFailed(String),
    /// The line stream ended or failed.
    StreamEnded,
    /// The process exited with this code.
    ExitCode(i32),
    /// The termination signal went out.
    KillIssued,
    /// The request failed, and the caller is told so.
    Failed(SupervisionError),
}

/// What the holder of a session does next. Every action but `Finish` ends
/// with one report to the session.
#[derive(Debug, PartialEq, Eq)]
pub enum Action {
    /// With the guard held, duplicate the standard output of the handle.
    DuplicateStdout,
    /// With the guard held, wait for the process to exit.
    AwaitExit,
    /// With the guard held, send the termination signal and do not wait.
    SignalKill,
    /// Give the guard back, then read the first item of the line stream.
    ReleaseAndRead,
    /// Hand the line to the sink without awaiting it, then read the next
    /// item. The sink keeps its own pace: a slow sink does not hold back the
    /// reading, nor the process that writes.
    PushAndRead(String),
    /// Give the guard back if it is held: the request is over.
    Finish(Outcome),
}

/// The state of a session as contracts see it.
pub struct SessionState {
    pub op: Operation,
    pub phase: Phase,
}

/// The code that stands for an exit status: the reported one, or -1 where the
/// operating system reported none.
pub open spec fn exit_code(status: Option<i32>) -> i32 {
    match status {
        Some(code) => code,
        None => -1i32,
    }
}

/// The state in which a request starts once it has the guard: with a handle
/// present its call on the handle is in flight, without one it is over.
pub open spec fn begin_state(op: Operation, owned: bool) -> SessionState {
    SessionState { op, phase: if owned { Phase::Holding } else { Phase::Finished } }
}

/// The first thing that a request does once it has the guard.
pub open spec fn begin_action(op: Operation, owned: bool) -> Action {
    match op {
        Operation::Stream => if owned {
            Action::DuplicateStdout
        } else {
            Action::Finish(Outcome::NothingToStream)
        },
        Operation::Wait => if owned {
            Action::AwaitExit
        } else {
            Action::Finish(Outcome::Failed(SupervisionError::ChildUnavailable))
        },
        Operation::Kill => if owned {
            Action::SignalKill
        } else {
            Action::Finish(Outcome::Failed(SupervisionError::ChildUnavailable))
        },
    }
}

/// The same session in another phase.
pub open spec fn in_phase(state: SessionState, phase: Phase) -> SessionState {
    SessionState { op: state.op, phase }
}

/// The step that a report causes: the next state and the next action, or
/// `None` where the state does not await such a report.
pub open spec fn transition(state: SessionState, event: Event) -> Option<(SessionState, Action)> {
    match (state.phase, state.op, event) {
        (Phase::Holding, Operation::Stream, Event::Duplicated) => Some(
            (in_phase(state, Phase::Consuming), Action::ReleaseAndRead),
        ),
        (Phase::Holding, Operation::Stream, Event::DuplicationFailed(cause)) => Some(
            (in_phase(state, Phase::Finished), Action::Finish(Outcome::DuplicationFailed(cause))),
        ),
        (Phase::Holding, Operation::Wait, Event::Exited(status)) => Some(
            (in_phase(state, Phase::Finished), Action::Finish(Outcome::ExitCode(exit_code(status)))),
        ),
        (Phase::Holding, Operation::Wait, Event::WaitFailed(cause)) => Some(
            (
                in_phase(state, Phase::Finished),
                Action::Finish(Outcome::Failed(SupervisionError::WaitFailure(cause))),
            ),
        ),
        (Phase::Holding, Operation::Kill, Event::KillSent) => Some(
            (in_phase(state, Phase::Finished), Action::Finish(Outcome::KillIssued)),
        ),
        (Phase::Holding, Operation::Kill, Event::KillFailed(cause)) => Some(
            (
                in_phase(state, Phase::Finished),
                Action::Finish(Outcome::Failed(SupervisionError::KillFailure(cause))),
            ),
        ),
        (Phase::Consuming, Operation::Stream, Event::Line(line)) => Some(
            (state, Action::PushAndRead(line)),
        ),
        (Phase::Consuming, Operation::Stream, Event::ReadFailed(_)) => Some(
            (in_phase(state, Phase::Finished), Action::Finish(Outcome::StreamEnded)),
        ),
        (Phase::Consuming, Operation::Stream, Event::Closed) => Some(
            (in_phase(state, Phase::Finished), Action::Finish(Outcome::StreamEnded)),
        ),
        _ => None,
    }
}

/// Whether a session in this state holds the guard.
pub open spec fn guard_held(state: SessionState) -> bool {
    state.phase == Phase::Holding
}

/// The state after a run of reports, each taken in turn; a report that the
/// state does not await changes nothing.
pub open spec fn state_after(state: SessionState, events: Seq<Event>) -> SessionState
    decreases events.len(),
{
    if events.len() == 0 {
        state
    } else {
        let before = state_after(state, events.drop_last());
        match transition(before, events.last()) {
            Some((next, _)) => next,
            None => before,
        }
    }
}

/// The actions that a run of reports causes, in the order of the reports.
pub open spec fn actions_after(state: SessionState, events: Seq<Event>) -> Seq<Action>
    decreases events.len(),
{
    if events.len() == 0 {
        Seq::empty()
    } else {
        let earlier = actions_after(state, events.drop_last());
        match transition(state_after(state, events.drop_last()), events.last()) {
            Some((_, action)) => earlier.push(action),
            None => earlier,
        }
    }
}

/// Computes the code that stands for an exit status.
pub fn exit_code_of(status: Option<i32>) -> (code: i32)
    ensures
        code == exit_code(status),
{
    match status {
        Some(code) => code,
        None => -1,
    }
}

/// One request on a supervised child. A session is made under the guard, by
/// the child's own methods, and from then on decides each step.
#[derive(Debug)]
pub struct Session {
    op: Operation,
    phase: Phase,
}

impl View for Session {
    type V = SessionState;

    closed spec fn view(&self) -> SessionState {
        SessionState { op: self.op, phase: self.phase }
    }
}

impl Session {
    /// Starts a request that has just acquired the guard and found the
    /// handle present or absent.
    pub(crate) fn begin(op: Operation, owned: bool) -> (begun: (Session, Action))
        ensures
            begun.0@ == begin_state(op, owned),
            begun.1 == begin_action(op, owned),
    {
        if owned {
            let action = match op {
                Operation::Stream => Action::DuplicateStdout,
                Operation::Wait => Action::AwaitExit,
                Operation::Kill => Action::SignalKill,
            };
            (Session { op, phase: Phase::Holding }, action)
        } else {
            let outcome = match op {
                Operation::Stream => Outcome::NothingToStream,
                Operation::Wait => Outcome::Failed(SupervisionError::ChildUnavailable),
                Operation::Kill => Outcome::Failed(SupervisionError::ChildUnavailable),
            };
            (Session { op, phase: Phase::Finished }, Action::Finish(outcome))
        }
    }

    /// The request that this session serves.
    pub fn operation(&self) -> (op: Operation)
        ensures
            op == self@.op,
    {
        self.op
    }

    /// Where the request stands.
    pub fn phase(&self) -> (phase: Phase)
        ensures
            phase == self@.phase,
    {
        self.phase
    }

    /// Tells whether the session holds the guard.
    pub fn holds_guard(&self) -> (held: bool)
        ensures
            held == guard_held(self@),
    {
        match self.phase {
            Phase::Holding => true,
            _ => false,
        }
    }

    /// Tells whether the request is over.
    pub fn is_finished(&self) -> (finished: bool)
        ensures
            finished == (self@.phase == Phase::Finished),
    {
        match self.phase {
            Phase::Finished => true,
            _ => false,
        }
    }

    /// Takes one report and decides what happens next. A report that the
    /// session does not await is answered with `None` and changes nothing.
    pub fn step(&mut self, event: Event) -> (action: Option<Action>)
        ensures
            match transition(old(self)@, event) {
                Some((next, act)) => final(self)@ == next && action == Some(act),
                None => final(self)@ == old(self)@ && action is None,
            },
    {
        match self.phase {
            Phase::Holding => match (self.op, event) {
                (Operation::Stream, Event::Duplicated) => {
                    self.phase = Phase::Consuming;
                    Some(Action::ReleaseAndRead)
                },
                (Operation::Stream, Event::DuplicationFailed(cause)) => {
                    self.phase = Phase::Finished;
                    Some(Action::Finish(Outcome::DuplicationFailed(cause)))
                },
                (Operation::Wait, Event::Exited(status)) => {
                    self.phase = Phase::Finished;
                    Some(Action::Finish(Outcome::ExitCode(exit_code_of(status))))
                },
                (Operation::Wait, Event::WaitFailed(cause)) => {
                    self.phase = Phase::Finished;
                    Some(Action::Finish(Outcome::Failed(SupervisionError::WaitFailure(cause))))
                },
                (Operation::Kill, Event::KillSent) => {
                    self.phase = Phase::Finished;
                    Some(Action::Finish(Outcome::KillIssued))
                },
                (Operation::Kill, Event::KillFailed(cause)) => {
                    self.phase = Phase::Finished;
                    Some(Action::Finish(Outcome::Failed(SupervisionError::KillFailure(cause))))
                },
                _ => None,
            },
            Phase::Consuming => match (self.op, event) {
                (Operation::Stream, Event::Line(line)) => Some(Action::PushAndRead(line)),
                (Operation::Stream, Event::ReadFailed(_)) => {
                    self.phase = Phase::Finished;
                    Some(Action::Finish(Outcome::StreamEnded))
                },
                (Operation::Stream, Event::Closed) => {
                    self.phase = Phase::Finished;
                    Some(Action::Finish(Outcome::StreamEnded))
                },
                _ => None,
            },
            Phase::Finished => None,
        }
    }

    /// Takes a run of reports in order and collects the actions they cause.
    pub fn run(&mut self, events: Vec<Event>) -> (actions: Vec<Action>)
        ensures
            final(self)@ == state_after(old(self)@, events@),
            actions@ == actions_after(old(self)@, events@),
    {
        let mut actions: Vec<Action> = Vec::new();
        let ghost start = self@;
        let ghost all = events@;
        for event in it: events
            invariant
                it.seq() == all,
                self@ == state_after(start, all.take(it.index() as int)),
                actions@ == actions_after(start, all.take(it.index() as int)),
        {
            proof {
                let k = it.index() as int;
                assert(all.take(k + 1).drop_last() == all.take(k));
                assert(all.take(k + 1).last() == event);
            }
            match self.step(event) {
                Some(action) => {
                    actions.push(action);
                },
                None => {},
            }
        }
        proof {
            assert(all.take(all.len() as int) == all);
        }
        actions
    }
}

impl Outcome {
    /// The line for the local log, where the outcome is one that is logged
    /// and not surfaced.
    pub open spec fn log_text(self) -> Option<Seq<char>> {
        match self {
            Outcome::DuplicationFailed(cause) => Some("Error duplicating stdout: "@ + cause@),
            _ => None,
        }
    }

    /// Builds the line for the local log: only a failed duplication has one.
    pub fn log_line(&self) -> (line: Option<String>)
        ensures
            match line {
                Some(text) => self.log_text() == Some(text@),
                None => self.log_text() is None,
            },
    {
        match self {
            Outcome::DuplicationFailed(cause) => Some(
                String::from_str("Error duplicating stdout: ").concat(cause.as_str()),
            ),
            _ => None,
        }
    }
}

} // verus!
