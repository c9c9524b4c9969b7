use agent_supervisor::error::{ErrorClass, SupervisionError};

#[test]
fn invalid_config_message_carries_cause() {
    let error = SupervisionError::InvalidConfig(String::from("expected value at line 1 column 1"));
    assert_eq!(
        error.message(),
        "Failed to parse config: expected value at line 1 column 1"
    );
}

#[test]
fn spawn_failure_message_carries_cause() {
    let error = SupervisionError::SpawnFailure(String::from("No such file or directory"));
    assert_eq!(
        error.message(),
        "Failed to spawn executor: No such file or directory"
    );
}

#[test]
fn wait_failure_message_carries_cause() {
    let error = SupervisionError::WaitFailure(String::from("interrupted"));
    assert_eq!(error.message(), "Failed to wait: interrupted");
}

#[test]
fn kill_failure_message_carries_cause() {
    let error = SupervisionError::KillFailure(String::from("no such process"));
    assert_eq!(error.message(), "Failed to kill: no such process");
}

#[test]
fn child_unavailable_message_is_fixed() {
    assert_eq!(
        SupervisionError::ChildUnavailable.message(),
        "Child process not available"
    );
}

#[test]
fn empty_cause_leaves_the_phrase() {
    let error = SupervisionError::WaitFailure(String::new());
    assert_eq!(error.message(), "Failed to wait: ");
}

#[test]
fn only_invalid_config_is_an_invalid_argument() {
    assert_eq!(
        SupervisionError::InvalidConfig(String::from("x")).class(),
        ErrorClass::InvalidArgument
    );
    assert_eq!(
        SupervisionError::SpawnFailure(String::from("x")).class(),
        ErrorClass::GenericFailure
    );
    assert_eq!(
        SupervisionError::ChildUnavailable.class(),
        ErrorClass::GenericFailure
    );
    assert_eq!(
        SupervisionError::WaitFailure(String::from("x")).class(),
        ErrorClass::GenericFailure
    );
    assert_eq!(
        SupervisionError::KillFailure(String::from("x")).class(),
        ErrorClass::GenericFailure
    );
}
