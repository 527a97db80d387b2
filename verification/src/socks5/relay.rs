//! The relay engine's coordination state. The engine pumps bytes in both
//! directions between two connected sockets; each direction copies until its
//! source ends, then half-closes its destination so the peer sees end of
//! stream promptly. This module holds the verified coordination machine; the
//! caller owns the sockets, performs the copies, and feeds each direction's
//! end back in.

use vstd::prelude::*;

verus! {

/// One of the two copy directions.
#[derive(Clone, Copy, Debug, PartialEq, Eq, Structural)]
pub enum Direction {
    ClientToTarget,
    TargetToClient,
}

/// The other copy direction.
pub open spec fn spec_other(d: Direction) -> Direction {
    match d {
        Direction::ClientToTarget => Direction::TargetToClient,
        Direction::TargetToClient => Direction::ClientToTarget,
    }
}

/// Where one direction stands: still copying, or finished after its source
/// ended and its destination was told to half-close.
#[derive(Clone, Copy, Debug, PartialEq, Eq, Structural)]
pub enum DirectionState {
    Copying,
    Finished,
}

/// What the caller must do when a direction's source ends: half-close the
/// write side that direction was feeding.
#[derive(Clone, Copy, Debug, PartialEq, Eq, Structural)]
pub enum RelayAction {
    HalfCloseDestination(Direction),
}

/// The relay engine's state: one state per direction. The engine is complete
/// exactly when both directions have finished; an error in one direction never
/// keeps the other from finishing its own shutdown.
#[derive(Clone, Copy, Debug, PartialEq, Eq, Structural)]
pub struct RelayState {
    pub client_to_target: DirectionState,
    pub target_to_client: DirectionState,
}

/// The state of one direction within the engine.
pub open spec fn spec_dir(s: RelayState, d: Direction) -> DirectionState {
    match d {
        Direction::ClientToTarget => s.client_to_target,
        Direction::TargetToClient => s.target_to_client,
    }
}

/// A fresh engine copies in both directions.
pub open spec fn spec_initial() -> RelayState {
    RelayState { client_to_target: DirectionState::Copying, target_to_client: DirectionState::Copying }
}

/// The transition a direction's end of source (end-of-stream or error) makes:
/// that direction finishes, the other is untouched.
pub open spec fn spec_source_done(s: RelayState, d: Direction) -> RelayState {
    match d {
        Direction::ClientToTarget => RelayState { client_to_target: DirectionState::Finished, ..s },
        Direction::TargetToClient => RelayState { target_to_client: DirectionState::Finished, ..s },
    }
}

/// Whether both directions have finished.
pub open spec fn spec_complete(s: RelayState) -> bool {
    s.client_to_target == DirectionState::Finished && s.target_to_client
        == DirectionState::Finished
}

impl RelayState {
    /// A fresh engine over two connected sockets.
    pub fn new() -> (r: RelayState)
        ensures
            r == spec_initial(),
    {
        RelayState {
            client_to_target: DirectionState::Copying,
            target_to_client: DirectionState::Copying,
        }
    }

    /// One direction's source has ended (end-of-stream or I/O error). The
    /// returned action tells the caller to half-close that direction's
    /// destination; the other direction is untouched and may still finish its
    /// own shutdown.
    pub fn on_source_done(&mut self, d: Direction) -> (a: RelayAction)
        requires
            spec_dir(*old(self), d) == DirectionState::Copying,
        ensures
            *final(self) == spec_source_done(*old(self), d),
            a == RelayAction::HalfCloseDestination(d),
            spec_dir(*final(self), d) == DirectionState::Finished,
            spec_dir(*final(self), spec_other(d)) == spec_dir(*old(self), spec_other(d)),
    {
        match d {
            Direction::ClientToTarget => {
                self.client_to_target = DirectionState::Finished;
            },
            Direction::TargetToClient => {
                self.target_to_client = DirectionState::Finished;
            },
        }
        RelayAction::HalfCloseDestination(d)
    }

    /// Whether the engine has completed: both directions finished.
    pub fn is_complete(&self) -> (r: bool)
        ensures
            r == spec_complete(*self),
    {
        match (self.client_to_target, self.target_to_client) {
            (DirectionState::Finished, DirectionState::Finished) => true,
            _ => false,
        }
    }
}

/// Law: from a fresh engine, whichever side's source ends first, each end
/// event half-closes exactly that direction's destination, the opposite
/// direction keeps running until its own source ends, and once both
/// directions have ended the engine is complete.
pub proof fn lemma_relay_completes(d1: Direction, d2: Direction)
    requires
        d1 != d2,
    ensures
        spec_dir(spec_source_done(spec_initial(), d1), d2) == DirectionState::Copying,
        spec_complete(spec_source_done(spec_source_done(spec_initial(), d1), d2)),
        !spec_complete(spec_source_done(spec_initial(), d1)),
{
}

} // verus!
