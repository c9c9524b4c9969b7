//! The supervised child: one process handle, held or released.

use crate::error::SupervisionError;
use crate::session::{begin_action, begin_state, Action, Operation, Outcome, Phase, Session};
use vstd::prelude::*;

verus! {

/// The place of the process handle.
#[derive(Debug)]
pub enum HandleSlot<H> {
    /// The process is under supervision.
    Owned(H),
    /// Supervision holds no handle.
    Released,
}

/// The owner of at most one live process handle. It is what the guard
/// protects: every method is called with the guard held.
#[derive(Debug)]
pub struct JsChild<H> {
    slot: HandleSlot<H>,
}

impl<H> JsChild<H> {
    /// What the child holds.
    pub closed spec fn slot(&self) -> HandleSlot<H> {
        self.slot
    }

    /// Whether a handle is under supervision.
    pub open spec fn is_owned(&self) -> bool {
        self.slot() is Owned
    }

    /// Takes a freshly started process under supervision.
    pub fn new(handle: H) -> (child: Self)
        ensures
            child.slot() == HandleSlot::Owned(handle),
    {
        JsChild { slot: HandleSlot::Owned(handle) }
    }

    /// A child that holds no handle.
    pub fn released() -> (child: Self)
        ensures
            child.slot() == HandleSlot::<H>::Released,
    {
        JsChild { slot: HandleSlot::Released }
    }

    /// Tells whether a handle is present.
    pub fn has_handle(&self) -> (present: bool)
        ensures
            present == self.is_owned(),
    {
        match &self.slot {
            HandleSlot::Owned(_) => true,
            HandleSlot::Released => false,
        }
    }

    /// Begins to stream the output, under the guard: with a handle present
    /// its standard output is to be duplicated while the guard is held; with
    /// none there is nothing to stream, and the request ends in silence.
    pub fn stream_output(&self) -> (begun: (Session, Action))
        ensures
            begun.0@ == begin_state(Operation::Stream, self.is_owned()),
            begun.1 == begin_action(Operation::Stream, self.is_owned()),
            self.is_owned() ==> begun.0@.phase == Phase::Holding && begun.1
                == Action::DuplicateStdout,
            !self.is_owned() ==> begun.0@.phase == Phase::Finished && begun.1 == Action::Finish(
                Outcome::NothingToStream,
            ),
    {
        Session::begin(Operation::Stream, self.has_handle())
    }

    /// Begins to wait for the exit, under the guard: with a handle present
    /// the wait is made while the guard is held; with none the request fails
    /// as `ChildUnavailable`.
    pub fn wait(&self) -> (begun: (Session, Action))
        ensures
            begun.0@ == begin_state(Operation::Wait, self.is_owned()),
            begun.1 == begin_action(Operation::Wait, self.is_owned()),
            self.is_owned() ==> begun.0@.phase == Phase::Holding && begun.1 == Action::AwaitExit,
            !self.is_owned() ==> begun.0@.phase == Phase::Finished && begun.1 == Action::Finish(
                Outcome::Failed(SupervisionError::ChildUnavailable),
            ),
    {
        Session::begin(Operation::Wait, self.has_handle())
    }

    /// Begins to terminate the process, under the guard: with a handle
    /// present the signal is sent while the guard is held; with none the
    /// request fails as `ChildUnavailable`. The handle stays where it is.
    pub fn kill(&self) -> (begun: (Session, Action))
        ensures
            begun.0@ == begin_state(Operation::Kill, self.is_owned()),
            begun.1 == begin_action(Operation::Kill, self.is_owned()),
            self.is_owned() ==> begun.0@.phase == Phase::Holding && begun.1 == Action::SignalKill,
            !self.is_owned() ==> begun.0@.phase == Phase::Finished && begun.1 == Action::Finish(
                Outcome::Failed(SupervisionError::ChildUnavailable),
            ),
    {
        Session::begin(Operation::Kill, self.has_handle())
    }

    /// Lends the handle for one call of the operating system.
    pub fn handle_mut(&mut self) -> (handle: Option<&mut H>)
        ensures
            match handle {
                Some(h) => old(self).slot() == HandleSlot::Owned(*h)
                    && final(self).slot() == HandleSlot::Owned(*final(h)),
                None => old(self).slot() is Released && final(self).slot() is Released,
            },
    {
        match &mut self.slot {
            HandleSlot::Owned(h) => Some(h),
            HandleSlot::Released => None,
        }
    }
}

} // verus!
