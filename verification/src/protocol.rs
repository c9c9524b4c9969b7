//! The locking discipline of a supervised child, as a model: one guard, one
//! handle slot, and the requests that are in flight on them.

use crate::child::{HandleSlot, JsChild};
use crate::error::SupervisionError;
use crate::session::{
    actions_after, begin_action, begin_state, exit_code, guard_held, state_after, transition,
    Action, Event, Operation, Outcome, Phase, SessionState,
};
use vstd::prelude::*;

verus! {

/// A supervised child and the requests made of it so far.
pub struct Supervision {
    /// Whether the handle is present.
    pub owned: bool,
    /// The request that holds the guard, by its place among the requests.
    pub holder: Option<int>,
    /// Every request that has acquired the guard so far, in that order.
    pub sessions: Seq<SessionState>,
}

/// A child right after its start or its release: no request yet, the guard free.
pub open spec fn initial(owned: bool) -> Supervision {
    Supervision { owned, holder: None, sessions: Seq::empty() }
}

/// The guard and the requests agree: the holder is a request that holds the
/// guard, and no other request does.
pub open spec fn coherent(s: Supervision) -> bool {
    &&& s.holder matches Some(i) ==> 0 <= i < s.sessions.len()
    &&& forall|i: int|
        0 <= i < s.sessions.len() ==> (guard_held(#[trigger] s.sessions[i]) <==> s.holder == Some(
            i,
        ))
}

/// A new request can acquire the guard only while nobody holds it.
pub open spec fn can_begin(s: Supervision) -> bool {
    s.holder is None
}

/// A new request acquires the guard and looks at the handle slot: where the
/// handle is present it keeps the guard for its call, where not it is over
/// at once and the guard stays free. It is a step of the model only where
/// `can_begin` holds.
pub open spec fn begin(s: Supervision, op: Operation) -> Supervision {
    let state = begin_state(op, s.owned);
    Supervision {
        owned: s.owned,
        holder: if guard_held(state) {
            Some(s.sessions.len() as int)
        } else {
            s.holder
        },
        sessions: s.sessions.push(state),
    }
}

/// One request takes one report. The guard becomes free when its holder
/// leaves the phase in which it holds it.
pub open spec fn deliver(s: Supervision, at: int, event: Event) -> Supervision {
    match transition(s.sessions[at], event) {
        Some((next, _)) => Supervision {
            owned: s.owned,
            holder: if s.holder == Some(at) && !guard_held(next) {
                None
            } else {
                s.holder
            },
            sessions: s.sessions.update(at, next),
        },
        None => s,
    }
}

/// A session in which the output lines are being read.
pub open spec fn consuming() -> SessionState {
    SessionState { op: Operation::Stream, phase: Phase::Consuming }
}

/// A request holds the guard from its beginning to its first report and
/// never again: whatever the report, the request does not hold the guard
/// after it.
pub proof fn lemma_report_ends_holding(state: SessionState, event: Event)
    ensures
        transition(state, event) matches Some((next, _)) ==> !guard_held(next),
{
}

/// While it holds the guard, a streaming request awaits the outcome of the
/// duplication and nothing else: not the exit of the process.
pub proof fn lemma_streaming_holds_for_duplication_only(event: Event)
    ensures
        transition(begin_state(Operation::Stream, true), event) is Some <==> (event
            is Duplicated || event is DuplicationFailed),
        transition(begin_state(Operation::Stream, true), Event::Duplicated) == Some(
            (consuming(), Action::ReleaseAndRead),
        ),
{
}

/// The guard and the requests agree from the start.
pub proof fn lemma_initial_coherent(owned: bool)
    ensures
        coherent(initial(owned)),
        can_begin(initial(owned)),
{
}

/// A request that begins while the guard is free leaves guard and requests
/// in agreement, and does not touch the handle slot.
pub proof fn lemma_begin_coherent(s: Supervision, op: Operation)
    requires
        coherent(s),
        can_begin(s),
    ensures
        coherent(begin(s, op)),
        begin(s, op).owned == s.owned,
{
    let after = begin(s, op);
    assert forall|i: int| 0 <= i < after.sessions.len() implies (guard_held(
        #[trigger] after.sessions[i],
    ) <==> after.holder == Some(i)) by {
        if i < s.sessions.len() {
            assert(after.sessions[i] == s.sessions[i]);
        }
    }
}

/// A report to any request leaves guard and requests in agreement, and does
/// not touch the handle slot.
pub proof fn lemma_deliver_coherent(s: Supervision, at: int, event: Event)
    requires
        coherent(s),
        0 <= at < s.sessions.len(),
    ensures
        coherent(deliver(s, at, event)),
        deliver(s, at, event).owned == s.owned,
{
    let after = deliver(s, at, event);
    if transition(s.sessions[at], event) is Some {
        assert forall|i: int| 0 <= i < after.sessions.len() implies (guard_held(
            #[trigger] after.sessions[i],
        ) <==> after.holder == Some(i)) by {
            if i != at {
                assert(after.sessions[i] == s.sessions[i]);
            }
        }
    }
}

/// One step of a supervised child: a request begins, or a request takes a
/// report.
pub enum Step {
    Begin(Operation),
    Deliver(int, Event),
}

/// Whether the step can be taken: a request begins only while the guard is
/// free, and a report goes to a request that exists.
pub open spec fn enabled(s: Supervision, step: Step) -> bool {
    match step {
        Step::Begin(_) => can_begin(s),
        Step::Deliver(at, _) => 0 <= at < s.sessions.len(),
    }
}

/// The child after a step; a step that cannot be taken changes nothing.
pub open spec fn after_step(s: Supervision, step: Step) -> Supervision {
    if enabled(s, step) {
        match step {
            Step::Begin(op) => begin(s, op),
            Step::Deliver(at, event) => deliver(s, at, event),
        }
    } else {
        s
    }
}

/// The child after a run of steps.
pub open spec fn after_steps(s: Supervision, steps: Seq<Step>) -> Supervision
    decreases steps.len(),
{
    if steps.len() == 0 {
        s
    } else {
        after_step(after_steps(s, steps.drop_last()), steps.last())
    }
}

/// Whatever requests are made of a child and whatever is reported to them,
/// in whatever order, guard and requests agree at every moment, and the
/// handle slot stays as it was.
pub proof fn lemma_always_coherent(owned: bool, steps: Seq<Step>)
    ensures
        coherent(after_steps(initial(owned), steps)),
        after_steps(initial(owned), steps).owned == owned,
    decreases steps.len(),
{
    if steps.len() > 0 {
        lemma_always_coherent(owned, steps.drop_last());
        let before = after_steps(initial(owned), steps.drop_last());
        if enabled(before, steps.last()) {
            match steps.last() {
                Step::Begin(op) => lemma_begin_coherent(before, op),
                Step::Deliver(at, event) => lemma_deliver_coherent(before, at, event),
            }
        }
    }
}

/// At most one request holds the guard at a time.
pub proof fn lemma_one_holder(s: Supervision, i: int, j: int)
    requires
        coherent(s),
        0 <= i < s.sessions.len(),
        0 <= j < s.sessions.len(),
        guard_held(s.sessions[i]),
        guard_held(s.sessions[j]),
    ensures
        i == j,
{
}

/// Streaming does not keep others out: a request that is reading output
/// lines is never the holder of the guard, so while no other request holds
/// it a wait or a kill can begin at once.
pub proof fn lemma_streaming_leaves_guard_free(s: Supervision, at: int)
    requires
        coherent(s),
        0 <= at < s.sessions.len(),
        s.sessions[at] == consuming(),
    ensures
        s.holder != Some(at),
        (forall|i: int| 0 <= i < s.sessions.len() && i != at ==> !guard_held(
            #[trigger] s.sessions[i],
        )) ==> can_begin(s),
{
    if s.holder is Some {
        let h = s.holder->0;
        assert(guard_held(s.sessions[h]));
    }
}

/// Whoever holds the guard gives it back with the report that it awaits.
pub proof fn lemma_holder_releases(s: Supervision, event: Event)
    requires
        coherent(s),
        s.holder is Some,
        transition(s.sessions[s.holder->0], event) is Some,
    ensures
        can_begin(deliver(s, s.holder->0, event)),
{
}

/// Streaming and waiting do not lock each other out. Take a child with its
/// handle present and a streaming request at any point of its course, no
/// other request holding the guard. If the streaming request still holds
/// the guard, the outcome of the duplication, whichever it is, frees it.
/// From then on a wait can begin; once the exit is reported, the wait ends
/// with its code and gives the guard back, and the streaming request is
/// where it was.
pub proof fn lemma_wait_completes_beside_stream(
    s: Supervision,
    at: int,
    duplication: Event,
    status: Option<i32>,
)
    requires
        coherent(s),
        s.owned,
        0 <= at < s.sessions.len(),
        s.sessions[at].op == Operation::Stream,
        forall|i: int| 0 <= i < s.sessions.len() && i != at ==> !guard_held(#[trigger] s.sessions[i]),
        duplication is Duplicated || duplication is DuplicationFailed,
    ensures
        ({
            let freed = if guard_held(s.sessions[at]) {
                deliver(s, at, duplication)
            } else {
                s
            };
            let waiter = freed.sessions.len() as int;
            let waiting = begin(freed, Operation::Wait);
            let done = deliver(waiting, waiter, Event::Exited(status));
            &&& can_begin(freed)
            &&& waiting.holder == Some(waiter)
            &&& begin_action(Operation::Wait, freed.owned) == Action::AwaitExit
            &&& transition(waiting.sessions[waiter], Event::Exited(status)) == Some(
                (
                    SessionState { op: Operation::Wait, phase: Phase::Finished },
                    Action::Finish(Outcome::ExitCode(exit_code(status))),
                ),
            )
            &&& coherent(done)
            &&& can_begin(done)
            &&& done.sessions[at] == freed.sessions[at]
        }),
{
    let freed = if guard_held(s.sessions[at]) {
        deliver(s, at, duplication)
    } else {
        s
    };
    if guard_held(s.sessions[at]) {
        lemma_deliver_coherent(s, at, duplication);
    } else if s.holder is Some {
        assert(guard_held(s.sessions[s.holder->0]));
    }
    let waiter = freed.sessions.len() as int;
    lemma_begin_coherent(freed, Operation::Wait);
    lemma_deliver_coherent(begin(freed, Operation::Wait), waiter, Event::Exited(status));
}

/// While another request holds the guard, a streaming request that is
/// reading goes on: each line is pushed, and the guard stays where it is.
pub proof fn lemma_stream_reads_beside_holder(s: Supervision, at: int, line: String)
    requires
        coherent(s),
        0 <= at < s.sessions.len(),
        s.sessions[at] == consuming(),
    ensures
        transition(s.sessions[at], Event::Line(line)) == Some(
            (consuming(), Action::PushAndRead(line)),
        ),
        deliver(s, at, Event::Line(line)).holder == s.holder,
        deliver(s, at, Event::Line(line)).sessions == s.sessions,
{
    assert(s.sessions.update(at, consuming()) == s.sessions);
}

/// A child that came out of a start holds its handle, so a wait on it is
/// made, and answers the exit report with a defined code: the reported one,
/// or -1 where none was reported.
pub proof fn lemma_wait_yields_code<H>(child: JsChild<H>, handle: H, status: Option<i32>)
    requires
        child.slot() == HandleSlot::Owned(handle),
    ensures
        begin_action(Operation::Wait, child.is_owned()) == Action::AwaitExit,
        transition(begin_state(Operation::Wait, child.is_owned()), Event::Exited(status)) == Some(
            (
                SessionState { op: Operation::Wait, phase: Phase::Finished },
                Action::Finish(Outcome::ExitCode(exit_code(status))),
            ),
        ),
        status is None ==> exit_code(status) == -1,
        status matches Some(code) ==> exit_code(status) == code,
{
}

/// A wait leaves the child as it found it, so a second wait that gets the
/// same exit report gives the same answer as the first.
pub proof fn lemma_wait_repeats(s: Supervision, status: Option<i32>)
    requires
        coherent(s),
        can_begin(s),
    ensures
        ({
            let first = s.sessions.len() as int;
            let after_first = deliver(begin(s, Operation::Wait), first, Event::Exited(status));
            let second = after_first.sessions.len() as int;
            &&& after_first.owned == s.owned
            &&& coherent(after_first)
            &&& can_begin(after_first)
            &&& begin_action(Operation::Wait, after_first.owned) == begin_action(
                Operation::Wait,
                s.owned,
            )
            &&& transition(begin(after_first, Operation::Wait).sessions[second], Event::Exited(status))
                == transition(begin(s, Operation::Wait).sessions[first], Event::Exited(status))
        }),
{
    let first = s.sessions.len() as int;
    lemma_begin_coherent(s, Operation::Wait);
    lemma_deliver_coherent(begin(s, Operation::Wait), first, Event::Exited(status));
}

/// A kill does not take the handle away: once the signal is out the guard
/// is free again, and a wait that follows finds the handle and answers the
/// exit report with its code.
pub proof fn lemma_wait_after_kill(s: Supervision, status: Option<i32>)
    requires
        coherent(s),
        can_begin(s),
        s.owned,
    ensures
        ({
            let killer = s.sessions.len() as int;
            let after_kill = deliver(begin(s, Operation::Kill), killer, Event::KillSent);
            let waiter = after_kill.sessions.len() as int;
            &&& after_kill.owned
            &&& coherent(after_kill)
            &&& can_begin(after_kill)
            &&& begin_action(Operation::Wait, after_kill.owned) == Action::AwaitExit
            &&& transition(begin(after_kill, Operation::Wait).sessions[waiter], Event::Exited(status))
                == Some(
                (
                    SessionState { op: Operation::Wait, phase: Phase::Finished },
                    Action::Finish(Outcome::ExitCode(exit_code(status))),
                ),
            )
        }),
{
    let killer = s.sessions.len() as int;
    lemma_begin_coherent(s, Operation::Kill);
    lemma_deliver_coherent(begin(s, Operation::Kill), killer, Event::KillSent);
}

/// A wait or a kill that finds no handle fails as `ChildUnavailable`, asks
/// nothing of the operating system, and leaves guard and slot as they were.
pub proof fn lemma_absent_handle_fails(s: Supervision, op: Operation)
    requires
        coherent(s),
        can_begin(s),
        !s.owned,
        op != Operation::Stream,
    ensures
        begin_action(op, s.owned) == Action::Finish(
            Outcome::Failed(SupervisionError::ChildUnavailable),
        ),
        begin(s, op).owned == s.owned,
        begin(s, op).holder == s.holder,
        forall|event: Event| transition(begin_state(op, s.owned), event) is None,
{
}

/// Whether an action can come of a report to a request of this kind.
pub open spec fn answers(op: Operation, action: Action) -> bool {
    match op {
        Operation::Stream => match action {
            Action::ReleaseAndRead => true,
            Action::PushAndRead(_) => true,
            Action::Finish(Outcome::DuplicationFailed(_)) => true,
            Action::Finish(Outcome::StreamEnded) => true,
            _ => false,
        },
        Operation::Wait => match action {
            Action::Finish(Outcome::ExitCode(_)) => true,
            Action::Finish(Outcome::Failed(SupervisionError::WaitFailure(_))) => true,
            _ => false,
        },
        Operation::Kill => match action {
            Action::Finish(Outcome::KillIssued) => true,
            Action::Finish(Outcome::Failed(SupervisionError::KillFailure(_))) => true,
            _ => false,
        },
    }
}

/// A request stays what it is, and whatever is reported to it, each action
/// that comes of it is one of its own kind: a wait is answered with an exit
/// code or a failed wait, a kill with the signal sent or a failed kill, and
/// only a streaming request reads and pushes.
pub proof fn lemma_actions_fit_request(state: SessionState, events: Seq<Event>)
    ensures
        state_after(state, events).op == state.op,
        forall|i: int|
            0 <= i < actions_after(state, events).len() ==> answers(
                state.op,
                #[trigger] actions_after(state, events)[i],
            ),
    decreases events.len(),
{
    if events.len() > 0 {
        lemma_actions_fit_request(state, events.drop_last());
        let before = state_after(state, events.drop_last());
        let earlier = actions_after(state, events.drop_last());
        assert forall|i: int| 0 <= i < actions_after(state, events).len() implies answers(
            state.op,
            #[trigger] actions_after(state, events)[i],
        ) by {
            if i < earlier.len() {
                assert(actions_after(state, events)[i] == earlier[i]);
            } else {
                assert(transition(before, events.last()) is Some);
            }
        }
    }
}

/// Reports taken in two runs act as they do in one.
pub proof fn lemma_runs_compose(state: SessionState, first: Seq<Event>, second: Seq<Event>)
    ensures
        state_after(state, first + second) == state_after(state_after(state, first), second),
        actions_after(state, first + second) == actions_after(state, first) + actions_after(
            state_after(state, first),
            second,
        ),
    decreases second.len(),
{
    if second.len() == 0 {
        assert(first + second == first);
        assert(actions_after(state, first) + Seq::<Action>::empty() == actions_after(
            state,
            first,
        ));
    } else {
        lemma_runs_compose(state, first, second.drop_last());
        assert((first + second).drop_last() == first + second.drop_last());
        assert((first + second).last() == second.last());
        let middle = state_after(state, first);
        let earlier = actions_after(state, first) + actions_after(middle, second.drop_last());
        match transition(state_after(middle, second.drop_last()), second.last()) {
            Some((_, action)) => {
                assert(earlier.push(action) == actions_after(state, first) + actions_after(
                    middle,
                    second.drop_last(),
                ).push(action));
            },
            None => {},
        }
    }
}

/// A request that is over takes no report.
pub proof fn lemma_finished_is_final(state: SessionState, events: Seq<Event>)
    requires
        state.phase == Phase::Finished,
    ensures
        state_after(state, events) == state,
        actions_after(state, events) == Seq::<Action>::empty(),
    decreases events.len(),
{
    if events.len() > 0 {
        lemma_finished_is_final(state, events.drop_last());
    }
}

/// While lines come, each is pushed, in the order in which it was read.
pub proof fn lemma_lines_pushed_in_order(lines: Seq<String>)
    ensures
        state_after(consuming(), lines.map_values(|line: String| Event::Line(line)))
            == consuming(),
        actions_after(consuming(), lines.map_values(|line: String| Event::Line(line)))
            == lines.map_values(|line: String| Action::PushAndRead(line)),
    decreases lines.len(),
{
    let events = lines.map_values(|line: String| Event::Line(line));
    let pushes = lines.map_values(|line: String| Action::PushAndRead(line));
    if lines.len() > 0 {
        lemma_lines_pushed_in_order(lines.drop_last());
        assert(events.drop_last() == lines.drop_last().map_values(
            |line: String| Event::Line(line),
        ));
        assert(events.last() == Event::Line(lines.last()));
        assert(pushes == lines.drop_last().map_values(
            |line: String| Action::PushAndRead(line),
        ).push(Action::PushAndRead(lines.last())));
    } else {
        assert(pushes == Seq::<Action>::empty());
    }
}

/// The sink gets the lines of the output in the order in which the process
/// wrote them: a stream that yields lines and then ends, or fails to read,
/// has each line pushed in turn and then ends the streaming; what is
/// reported after that causes nothing.
pub proof fn lemma_stream_relays_in_order(lines: Seq<String>, end: Event, later: Seq<Event>)
    requires
        end is Closed || end is ReadFailed,
    ensures
        state_after(
            consuming(),
            lines.map_values(|line: String| Event::Line(line)) + seq![end] + later,
        ).phase == Phase::Finished,
        actions_after(
            consuming(),
            lines.map_values(|line: String| Event::Line(line)) + seq![end] + later,
        ) == lines.map_values(|line: String| Action::PushAndRead(line)).push(
            Action::Finish(Outcome::StreamEnded),
        ),
{
    let events = lines.map_values(|line: String| Event::Line(line));
    let pushes = lines.map_values(|line: String| Action::PushAndRead(line));
    let finish = Action::Finish(Outcome::StreamEnded);
    let finished = SessionState { op: Operation::Stream, phase: Phase::Finished };
    lemma_lines_pushed_in_order(lines);
    assert(seq![end].drop_last() == Seq::<Event>::empty());
    assert(seq![end].last() == end);
    assert(state_after(consuming(), seq![end].drop_last()) == consuming());
    assert(actions_after(consuming(), seq![end].drop_last()) == Seq::<Action>::empty());
    assert(state_after(consuming(), seq![end]) == finished);
    assert(actions_after(consuming(), seq![end]) == Seq::<Action>::empty().push(finish));
    lemma_runs_compose(consuming(), events, seq![end]);
    lemma_finished_is_final(finished, later);
    lemma_runs_compose(consuming(), events + seq![end], later);
    assert(pushes + Seq::<Action>::empty().push(finish) == pushes.push(finish));
    assert(pushes.push(finish) + Seq::<Action>::empty() == pushes.push(finish));
}

} // verus!
