use agent_supervisor::error::SupervisionError;
use agent_supervisor::executor::JsExecutor;
use agent_supervisor::session::{Action, Event, Outcome};

#[test]
fn from_config_keeps_the_decoded_agent() {
    let decoded: Result<String, String> = Ok(String::from("agent"));
    let executor = JsExecutor::from_config(decoded).unwrap();
    assert_eq!(executor.inner(), "agent");
}

#[test]
fn from_config_reports_invalid_configuration() {
    let decoded: Result<u8, String> = Err(String::from("expected value at line 1 column 1"));
    let error = JsExecutor::from_config(decoded).unwrap_err();
    assert_eq!(
        error,
        SupervisionError::InvalidConfig(String::from("expected value at line 1 column 1"))
    );
    assert_eq!(
        error.message(),
        "Failed to parse config: expected value at line 1 column 1"
    );
}

#[test]
fn from_config_fails_the_same_way_each_time() {
    let first = JsExecutor::<u8>::from_config(Err(String::from("EOF while parsing"))).unwrap_err();
    let second = JsExecutor::<u8>::from_config(Err(String::from("EOF while parsing"))).unwrap_err();
    assert_eq!(first, second);
}

#[test]
fn spawn_without_overrides_uses_the_ambient_environment() {
    let executor = JsExecutor::from_config(Ok::<u8, String>(7)).unwrap();
    let launch = executor.spawn(String::from("/work"), String::from("fix the bug"), None);
    assert_eq!(launch.cwd, "/work");
    assert_eq!(launch.prompt, "fix the bug");
    assert!(launch.environment.entries().is_empty());
}

#[test]
fn spawn_carries_the_overrides() {
    let executor = JsExecutor::from_config(Ok::<u8, String>(7)).unwrap();
    let overrides = vec![
        (String::from("FOO"), String::from("1")),
        (String::from("BAR"), String::from("2")),
    ];
    let launch = executor.spawn(
        String::from("/work"),
        String::from("prompt"),
        Some(overrides),
    );
    assert_eq!(launch.environment.get("FOO"), Some(&String::from("1")));
    assert_eq!(launch.environment.get("BAR"), Some(&String::from("2")));
    assert_eq!(
        launch.environment.lookup("FOO", Some(String::from("0"))),
        Some(String::from("1"))
    );
    assert_eq!(launch.environment.entries().len(), 2);
}

#[test]
fn spawn_may_be_repeated() {
    let executor = JsExecutor::from_config(Ok::<u8, String>(7)).unwrap();
    let first = executor.spawn(String::from("/a"), String::from("p"), None);
    let second = executor.spawn(String::from("/b"), String::from("q"), None);
    let one = first.complete(Ok::<u32, String>(101)).unwrap();
    let two = second.complete(Ok::<u32, String>(102)).unwrap();
    assert!(one.has_handle());
    assert!(two.has_handle());
}

#[test]
fn started_process_comes_under_supervision() {
    let executor = JsExecutor::from_config(Ok::<u8, String>(7)).unwrap();
    let launch = executor.spawn(String::from("/work"), String::from("prompt"), None);
    let mut child = launch.complete(Ok::<u32, String>(4242)).unwrap();
    assert!(child.has_handle());
    assert_eq!(child.handle_mut(), Some(&mut 4242));
}

#[test]
fn failed_start_is_a_spawn_failure() {
    let executor = JsExecutor::from_config(Ok::<u8, String>(7)).unwrap();
    let launch = executor.spawn(String::from("/missing"), String::from("prompt"), None);
    let error = launch
        .complete(Err::<u32, String>(String::from("No such file or directory")))
        .unwrap_err();
    assert_eq!(
        error,
        SupervisionError::SpawnFailure(String::from("No such file or directory"))
    );
    assert_eq!(
        error.message(),
        "Failed to spawn executor: No such file or directory"
    );
}

#[test]
fn spawned_child_answers_a_wait_with_its_exit_code() {
    let executor = JsExecutor::from_config(Ok::<String, String>(String::from("agent"))).unwrap();
    let launch = executor.spawn(String::from("/work"), String::from("prompt"), None);
    let child = launch.complete(Ok::<u32, String>(4242)).unwrap();
    let (mut session, action) = child.wait();
    assert_eq!(action, Action::AwaitExit);
    assert_eq!(
        session.step(Event::Exited(Some(0))),
        Some(Action::Finish(Outcome::ExitCode(0)))
    );
}
