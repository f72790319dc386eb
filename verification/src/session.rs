//! The life cycle of one connection.

use crate::bus::ReceiveHandle;
use vstd::prelude::*;

verus! {

/// Where a connection stands in its life cycle. A session moves forward
/// only: `Connecting`, `Admitting`, `Joined`, `Leaving`, `Closed`, and it
/// may skip states on the way.
#[derive(Debug, Clone, Copy, PartialEq, Eq, Structural)]
pub enum SessionState {
    /// The transport is established; nothing was read yet.
    Connecting,
    /// The hub waits for the client's candidate name.
    Admitting,
    /// The session holds a name and a subscription.
    Joined,
    /// The session is being taken down.
    Leaving,
    /// Terminal: the session holds nothing.
    Closed,
}

impl SessionState {
    /// The position of the state in the life cycle.
    pub open spec fn rank(self) -> nat {
        match self {
            SessionState::Connecting => 0,
            SessionState::Admitting => 1,
            SessionState::Joined => 2,
            SessionState::Leaving => 3,
            SessionState::Closed => 4,
        }
    }

    /// Whether the session is over or about to be.
    pub fn is_over(&self) -> (over: bool)
        ensures
            over == (self.rank() >= 3),
    {
        match self {
            SessionState::Leaving | SessionState::Closed => true,
            _ => false,
        }
    }
}

/// What the hub made of one inbound frame.
#[derive(Debug, Clone, Copy, PartialEq, Eq, Structural)]
pub enum Verdict {
    /// The frame was a free candidate name: the session is now joined.
    Admitted,
    /// The frame was a candidate name that is taken: the client is owed the
    /// rejection notice, and the session is closed.
    Rejected,
    /// The frame was a message and was published.
    Relayed,
    /// The frame changed nothing.
    Ignored,
    /// The session is closed: with this frame, or before it.
    Ended,
}

/// A session as mathematics.
pub struct SessionModel {
    /// Where the session stands.
    pub state: SessionState,
    /// The display name that the session was admitted under; empty before
    /// admission.
    pub name: Seq<char>,
    /// The session's subscription, while it is joined.
    pub handle: Option<nat>,
}

impl SessionModel {
    /// A session whose transport was just established.
    pub open spec fn fresh() -> SessionModel {
        SessionModel { state: SessionState::Connecting, name: Seq::empty(), handle: None }
    }

    /// The same session in another state.
    pub open spec fn moved_to(self, state: SessionState) -> SessionModel {
        SessionModel { state, name: self.name, handle: self.handle }
    }
}

/// What the hub keeps for one connection.
pub struct Session {
    pub(crate) state: SessionState,
    pub(crate) name: String,
    pub(crate) handle: Option<ReceiveHandle>,
}

impl View for Session {
    type V = SessionModel;

    open(crate) spec fn view(&self) -> SessionModel {
        SessionModel {
            state: self.state,
            name: self.name@,
            handle: match self.handle {
                Some(handle) => Some(handle@),
                None => None,
            },
        }
    }
}

impl Session {
    /// A session whose transport was just established.
    pub fn new() -> (session: Session)
        ensures
            session@ == SessionModel::fresh(),
    {
        Session { state: SessionState::Connecting, name: String::new(), handle: None }
    }

    /// Where the session stands.
    pub fn state(&self) -> (state: SessionState)
        ensures
            state == self@.state,
    {
        self.state
    }

    /// The name that the session was admitted under; empty before
    /// admission.
    pub fn name(&self) -> (name: &str)
        ensures
            name@ == self@.name,
    {
        self.name.as_str()
    }
}

} // verus!
