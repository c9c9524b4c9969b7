//! The failures that supervision reports to its caller.

use vstd::prelude::*;
use vstd::string::StringExecFns;

verus! {

/// The class under which the host sees a failure.
#[derive(Clone, Copy, Debug, PartialEq, Eq, Structural)]
pub enum ErrorClass {
    /// The caller handed in something that cannot be used.
    InvalidArgument,
    /// The operation itself failed.
    GenericFailure,
}

/// A failure of one supervision request. Each variant but `ChildUnavailable`
/// carries the text of the underlying cause.
#[derive(Debug, PartialEq, Eq)]
pub enum SupervisionError {
    /// The serialized agent configuration could not be decoded.
    InvalidConfig(String),
    /// The operating system could not start the process.
    SpawnFailure(String),
    /// The operation found no process handle under supervision.
    ChildUnavailable,
    /// Waiting for the process failed.
    WaitFailure(String),
    /// Sending the termination signal failed.
    KillFailure(String),
}

impl SupervisionError {
    /// The message that the host reads.
    pub open spec fn message_text(self) -> Seq<char> {
        match self {
            SupervisionError::InvalidConfig(cause) => "Failed to parse config: "@ + cause@,
            SupervisionError::SpawnFailure(cause) => "Failed to spawn executor: "@ + cause@,
            SupervisionError::ChildUnavailable => "Child process not available"@,
            SupervisionError::WaitFailure(cause) => "Failed to wait: "@ + cause@,
            SupervisionError::KillFailure(cause) => "Failed to kill: "@ + cause@,
        }
    }

    /// The class of the failure: only a configuration that does not decode is
    /// the caller's invalid argument.
    pub open spec fn class_of(self) -> ErrorClass {
        match self {
            SupervisionError::InvalidConfig(_) => ErrorClass::InvalidArgument,
            _ => ErrorClass::GenericFailure,
        }
    }

    /// Builds the human-readable message: a fixed phrase for the kind of
    /// failure, followed by the cause where there is one.
    pub fn message(&self) -> (text: String)
        ensures
            text@ == self.message_text(),
    {
        match self {
            SupervisionError::InvalidConfig(cause) => {
                String::from_str("Failed to parse config: ").concat(cause.as_str())
            },
            SupervisionError::SpawnFailure(cause) => {
                String::from_str("Failed to spawn executor: ").concat(cause.as_str())
            },
            SupervisionError::ChildUnavailable => String::from_str("Child process not available"),
            SupervisionError::WaitFailure(cause) => {
                String::from_str("Failed to wait: ").concat(cause.as_str())
            },
            SupervisionError::KillFailure(cause) => {
                String::from_str("Failed to kill: ").concat(cause.as_str())
            },
        }
    }

    /// Tells under which class the host reports the failure.
    pub fn class(&self) -> (class: ErrorClass)
        ensures
            class == self.class_of(),
    {
        match self {
            SupervisionError::InvalidConfig(_) => ErrorClass::InvalidArgument,
            _ => ErrorClass::GenericFailure,
        }
    }
}

} // verus!
