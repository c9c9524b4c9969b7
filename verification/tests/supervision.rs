use agent_supervisor::child::JsChild;
use agent_supervisor::error::SupervisionError;
use agent_supervisor::session::{exit_code_of, Action, Event, Operation, Outcome, Phase};

fn line(text: &str) -> Event {
    Event::Line(String::from(text))
}

fn push(text: &str) -> Action {
    Action::PushAndRead(String::from(text))
}

#[test]
fn exit_code_is_the_reported_one_or_minus_one() {
    assert_eq!(exit_code_of(Some(0)), 0);
    assert_eq!(exit_code_of(Some(137)), 137);
    assert_eq!(exit_code_of(Some(-5)), -5);
    assert_eq!(exit_code_of(None), -1);
}

#[test]
fn wait_on_a_held_handle_awaits_the_exit() {
    let child = JsChild::new(1u32);
    let (session, action) = child.wait();
    assert_eq!(action, Action::AwaitExit);
    assert_eq!(session.operation(), Operation::Wait);
    assert_eq!(session.phase(), Phase::Holding);
    assert!(session.holds_guard());
    assert!(!session.is_finished());
}

#[test]
fn wait_returns_the_exit_code() {
    let child = JsChild::new(1u32);
    let (mut session, _) = child.wait();
    let action = session.step(Event::Exited(Some(3)));
    assert_eq!(action, Some(Action::Finish(Outcome::ExitCode(3))));
    assert!(session.is_finished());
    assert!(!session.holds_guard());
}

#[test]
fn wait_without_a_reported_code_gives_minus_one() {
    let child = JsChild::new(1u32);
    let (mut session, _) = child.wait();
    let action = session.step(Event::Exited(None));
    assert_eq!(action, Some(Action::Finish(Outcome::ExitCode(-1))));
}

#[test]
fn wait_failure_reaches_the_caller() {
    let child = JsChild::new(1u32);
    let (mut session, _) = child.wait();
    let action = session.step(Event::WaitFailed(String::from("interrupted")));
    assert_eq!(
        action,
        Some(Action::Finish(Outcome::Failed(SupervisionError::WaitFailure(
            String::from("interrupted")
        ))))
    );
    assert!(session.is_finished());
}

#[test]
fn wait_after_exit_gives_the_same_code_again() {
    let child = JsChild::new(1u32);
    let (mut first, _) = child.wait();
    let first_answer = first.step(Event::Exited(Some(9)));
    assert!(child.has_handle());
    let (mut second, action) = child.wait();
    assert_eq!(action, Action::AwaitExit);
    let second_answer = second.step(Event::Exited(Some(9)));
    assert_eq!(first_answer, Some(Action::Finish(Outcome::ExitCode(9))));
    assert_eq!(first_answer, second_answer);
}

#[test]
fn wait_on_an_absent_handle_is_unavailable() {
    let child: JsChild<u32> = JsChild::released();
    let (session, action) = child.wait();
    assert_eq!(
        action,
        Action::Finish(Outcome::Failed(SupervisionError::ChildUnavailable))
    );
    assert!(session.is_finished());
    assert!(!session.holds_guard());
}

#[test]
fn kill_on_an_absent_handle_is_unavailable() {
    let mut child: JsChild<u32> = JsChild::released();
    let (mut session, action) = child.kill();
    assert_eq!(
        action,
        Action::Finish(Outcome::Failed(SupervisionError::ChildUnavailable))
    );
    assert_eq!(session.operation(), Operation::Kill);
    assert!(session.is_finished());
    assert!(!session.holds_guard());
    assert_eq!(session.step(Event::KillSent), None);
    assert!(!child.has_handle());
    assert_eq!(child.handle_mut(), None);
}

#[test]
fn kill_sends_the_signal_and_does_not_wait() {
    let child = JsChild::new(1u32);
    let (mut session, action) = child.kill();
    assert_eq!(action, Action::SignalKill);
    assert!(session.holds_guard());
    let done = session.step(Event::KillSent);
    assert_eq!(done, Some(Action::Finish(Outcome::KillIssued)));
    assert!(session.is_finished());
    assert!(!session.holds_guard());
}

#[test]
fn kill_failure_reaches_the_caller() {
    let child = JsChild::new(1u32);
    let (mut session, _) = child.kill();
    let done = session.step(Event::KillFailed(String::from("no such process")));
    assert_eq!(
        done,
        Some(Action::Finish(Outcome::Failed(SupervisionError::KillFailure(
            String::from("no such process")
        ))))
    );
}

#[test]
fn wait_after_kill_finds_the_handle() {
    let child = JsChild::new(1u32);
    let (mut killer, _) = child.kill();
    killer.step(Event::KillSent);
    assert!(child.has_handle());
    let (mut waiter, action) = child.wait();
    assert_eq!(action, Action::AwaitExit);
    assert_eq!(
        waiter.step(Event::Exited(None)),
        Some(Action::Finish(Outcome::ExitCode(-1)))
    );
    let (mut again, _) = child.wait();
    assert_eq!(
        again.step(Event::Exited(Some(143))),
        Some(Action::Finish(Outcome::ExitCode(143)))
    );
}

#[test]
fn stream_on_an_absent_handle_ends_in_silence() {
    let child: JsChild<u32> = JsChild::released();
    let (session, action) = child.stream_output();
    assert_eq!(action, Action::Finish(Outcome::NothingToStream));
    assert!(session.is_finished());
    assert_eq!(Outcome::NothingToStream.log_line(), None);
}

#[test]
fn stream_duplicates_under_the_guard_and_reads_without_it() {
    let child = JsChild::new(1u32);
    let (mut session, action) = child.stream_output();
    assert_eq!(action, Action::DuplicateStdout);
    assert_eq!(session.operation(), Operation::Stream);
    assert!(session.holds_guard());
    let next = session.step(Event::Duplicated);
    assert_eq!(next, Some(Action::ReleaseAndRead));
    assert_eq!(session.phase(), Phase::Consuming);
    assert!(!session.holds_guard());
    assert_eq!(session.step(line("a")), Some(push("a")));
    assert!(!session.holds_guard());
}

#[test]
fn wait_completes_while_a_stream_is_in_flight() {
    let child = JsChild::new(1u32);
    let (mut stream, _) = child.stream_output();
    stream.step(Event::Duplicated);
    assert!(!stream.holds_guard());
    let (mut waiter, action) = child.wait();
    assert_eq!(action, Action::AwaitExit);
    assert_eq!(stream.step(line("still running")), Some(push("still running")));
    assert_eq!(
        waiter.step(Event::Exited(Some(0))),
        Some(Action::Finish(Outcome::ExitCode(0)))
    );
    assert_eq!(
        stream.step(Event::Closed),
        Some(Action::Finish(Outcome::StreamEnded))
    );
}

#[test]
fn stream_pushes_lines_in_the_order_written() {
    let child = JsChild::new(1u32);
    let (mut session, _) = child.stream_output();
    session.step(Event::Duplicated);
    let actions = session.run(vec![line("a"), line("b"), line("c"), Event::Closed]);
    assert_eq!(
        actions,
        vec![
            push("a"),
            push("b"),
            push("c"),
            Action::Finish(Outcome::StreamEnded)
        ]
    );
    assert!(session.is_finished());
}

#[test]
fn stream_keeps_repeated_and_empty_lines() {
    let child = JsChild::new(1u32);
    let (mut session, _) = child.stream_output();
    session.step(Event::Duplicated);
    let actions = session.run(vec![line("x"), line(""), line("x")]);
    assert_eq!(actions, vec![push("x"), push(""), push("x")]);
    assert_eq!(session.phase(), Phase::Consuming);
}

#[test]
fn stream_ends_at_a_read_error() {
    let child = JsChild::new(1u32);
    let (mut session, _) = child.stream_output();
    session.step(Event::Duplicated);
    let actions = session.run(vec![
        line("a"),
        Event::ReadFailed(String::from("stream did not contain valid UTF-8")),
        line("b"),
        Event::Closed,
    ]);
    assert_eq!(
        actions,
        vec![push("a"), Action::Finish(Outcome::StreamEnded)]
    );
    assert!(session.is_finished());
}

#[test]
fn stream_with_no_output_just_ends() {
    let child = JsChild::new(1u32);
    let (mut session, _) = child.stream_output();
    let actions = session.run(vec![Event::Duplicated, Event::Closed]);
    assert_eq!(
        actions,
        vec![
            Action::ReleaseAndRead,
            Action::Finish(Outcome::StreamEnded)
        ]
    );
}

#[test]
fn failed_duplication_is_logged_and_not_surfaced() {
    let child = JsChild::new(1u32);
    let (mut session, _) = child.stream_output();
    let done = session.step(Event::DuplicationFailed(String::from("stdout already taken")));
    assert_eq!(
        done,
        Some(Action::Finish(Outcome::DuplicationFailed(String::from(
            "stdout already taken"
        ))))
    );
    assert!(session.is_finished());
    assert!(!session.holds_guard());
    assert_eq!(
        Outcome::DuplicationFailed(String::from("stdout already taken")).log_line(),
        Some(String::from(
            "Error duplicating stdout: stdout already taken"
        ))
    );
}

#[test]
fn only_a_failed_duplication_has_a_log_line() {
    assert_eq!(Outcome::StreamEnded.log_line(), None);
    assert_eq!(Outcome::ExitCode(1).log_line(), None);
    assert_eq!(Outcome::KillIssued.log_line(), None);
    assert_eq!(
        Outcome::Failed(SupervisionError::ChildUnavailable).log_line(),
        None
    );
}

#[test]
fn report_that_is_not_awaited_changes_nothing() {
    let child = JsChild::new(1u32);
    let (mut waiter, _) = child.wait();
    assert_eq!(waiter.step(Event::KillSent), None);
    assert_eq!(waiter.step(line("a")), None);
    assert_eq!(waiter.step(Event::Duplicated), None);
    assert_eq!(waiter.phase(), Phase::Holding);
    let (mut stream, _) = child.stream_output();
    assert_eq!(stream.step(line("early")), None);
    assert_eq!(stream.step(Event::Exited(Some(0))), None);
    assert_eq!(stream.phase(), Phase::Holding);
    stream.step(Event::Duplicated);
    assert_eq!(stream.step(Event::Duplicated), None);
    assert_eq!(stream.phase(), Phase::Consuming);
}

#[test]
fn finished_session_takes_no_report() {
    let child = JsChild::new(1u32);
    let (mut session, _) = child.kill();
    session.step(Event::KillSent);
    let actions = session.run(vec![
        Event::KillSent,
        Event::Exited(Some(0)),
        line("a"),
        Event::Closed,
    ]);
    assert!(actions.is_empty());
    assert!(session.is_finished());
}

#[test]
fn run_of_nothing_does_nothing() {
    let child = JsChild::new(1u32);
    let (mut session, _) = child.wait();
    assert!(session.run(Vec::new()).is_empty());
    assert_eq!(session.phase(), Phase::Holding);
}

#[test]
fn handle_is_lent_for_the_call() {
    let mut child = JsChild::new(String::from("pid 7"));
    match child.handle_mut() {
        Some(handle) => handle.push_str(", signalled"),
        None => panic!("the handle is present"),
    }
    assert_eq!(
        child.handle_mut().map(|handle| handle.clone()),
        Some(String::from("pid 7, signalled"))
    );
    assert!(child.has_handle());
}
