//! The agent that starts children, and what a start is made of.

use crate::child::{HandleSlot, JsChild};
use crate::environment::{overlay, ExecutionEnvironment};
use crate::error::SupervisionError;
use vstd::prelude::*;

verus! {

/// A decoded agent configuration. It owns no running process and can start
/// any number of children.
#[derive(Debug)]
pub struct JsExecutor<A> {
    inner: A,
}

/// What one start of a child is made of: where it runs, what it is asked,
/// and the overrides laid over the ambient environment.
#[derive(Debug)]
pub struct Launch {
    pub cwd: String,
    pub prompt: String,
    pub environment: ExecutionEnvironment,
}

/// The overrides of a start: those that the caller gave, laid over none.
pub open spec fn launch_overrides(env: Option<Vec<(String, String)>>) -> Map<Seq<char>, Seq<char>> {
    match env {
        Some(overrides) => overlay(Map::empty(), overrides.deep_view()),
        None => Map::empty(),
    }
}

impl<A> JsExecutor<A> {
    /// The configuration that the executor holds.
    pub closed spec fn agent(&self) -> A {
        self.inner
    }

    /// Makes an executor of what decoding a serialized configuration gave:
    /// the decoded agent, or the cause for which it could not be decoded,
    /// which is reported as `InvalidConfig`.
    pub fn from_config(decoded: Result<A, String>) -> (made: Result<Self, SupervisionError>)
        ensures
            match decoded {
                Ok(agent) => made is Ok && made->Ok_0.agent() == agent,
                Err(cause) => made == Err::<Self, SupervisionError>(
                    SupervisionError::InvalidConfig(cause),
                ),
            },
    {
        match decoded {
            Ok(agent) => Ok(JsExecutor { inner: agent }),
            Err(cause) => Err(SupervisionError::InvalidConfig(cause)),
        }
    }

    /// Lends the configuration to whoever starts the process.
    pub fn inner(&self) -> (agent: &A)
        ensures
            *agent == self.agent(),
    {
        &self.inner
    }

    /// Prepares the start of one child: the working directory and the prompt
    /// as given, and an environment that holds the caller's overrides, or
    /// none where the caller gave none.
    pub fn spawn(&self, cwd: String, prompt: String, env: Option<Vec<(String, String)>>) -> (launch:
        Launch)
        ensures
            launch.cwd == cwd,
            launch.prompt == prompt,
            launch.environment@ == launch_overrides(env),
    {
        let environment = match &env {
            Some(overrides) => ExecutionEnvironment::new().with_overrides(overrides),
            None => ExecutionEnvironment::new(),
        };
        Launch { cwd, prompt, environment }
    }
}

impl Launch {
    /// Concludes the start with what the operating system answered: a
    /// started process comes under supervision, a failure is reported as
    /// `SpawnFailure` with its cause.
    pub fn complete<H>(self, started: Result<H, String>) -> (child: Result<
        JsChild<H>,
        SupervisionError,
    >)
        ensures
            match started {
                Ok(handle) => child is Ok && child->Ok_0.slot() == HandleSlot::Owned(handle),
                Err(cause) => child == Err::<JsChild<H>, SupervisionError>(
                    SupervisionError::SpawnFailure(cause),
                ),
            },
    {
        match started {
            Ok(handle) => Ok(JsChild::new(handle)),
            Err(cause) => Err(SupervisionError::SpawnFailure(cause)),
        }
    }
}

} // verus!
