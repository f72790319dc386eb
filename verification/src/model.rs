//! The hub as mathematics: the claimed names, the bus and the sessions,
//! and what each event makes of them.

use crate::bus::BusModel;
use crate::session::{SessionModel, SessionState, Verdict};
use crate::wire::{EventModel, FrameModel};
use vstd::prelude::*;

verus! {

/// What a joined session finds when it asks for its next outbound frame.
pub enum OutboundModel {
    /// The text of the oldest pending event.
    Frame(Seq<char>),
    /// Nothing is pending.
    Idle,
    /// The session is not joined: its outbound side is over.
    Ended,
}

/// The state of the whole hub.
pub struct HubModel {
    /// The claimed display names.
    pub names: Set<Seq<char>>,
    /// The bus with the buffers of the joined sessions.
    pub bus: BusModel,
    /// Every session that ever connected, by its number.
    pub sessions: Seq<SessionModel>,
}

impl HubModel {
    /// A hub that nobody connected to yet.
    pub open spec fn empty(capacity: nat) -> HubModel {
        HubModel { names: Set::empty(), bus: BusModel::empty(capacity), sessions: Seq::empty() }
    }

    /// Whether a session has the number `id`.
    pub open spec fn has(self, id: nat) -> bool {
        id < self.sessions.len()
    }

    /// The state of session `id`; a number that no session has counts as
    /// closed.
    pub open spec fn state_of(self, id: nat) -> SessionState {
        if self.has(id) {
            self.sessions[id as int].state
        } else {
            SessionState::Closed
        }
    }

    /// Whether session `id` is joined.
    pub open spec fn joined(self, id: nat) -> bool {
        self.has(id) && self.sessions[id as int].state == SessionState::Joined
    }

    /// Whether session `i` is joined under `name`.
    pub open spec fn owns(self, i: int, name: Seq<char>) -> bool {
        &&& 0 <= i < self.sessions.len()
        &&& self.sessions[i].state == SessionState::Joined
        &&& self.sessions[i].name == name
    }

    /// Whether session `i` is joined and receives through `handle`.
    pub open spec fn listens(self, i: int, handle: nat) -> bool {
        &&& 0 <= i < self.sessions.len()
        &&& self.sessions[i].state == SessionState::Joined
        &&& self.sessions[i].handle == Some(handle)
    }

    /// The subscription of session `id`, where it has one.
    pub open spec fn handle_of(self, id: nat) -> nat {
        match self.sessions[id as int].handle {
            Some(handle) => handle,
            None => 0,
        }
    }

    /// The events that wait to be written to the client of session `id`,
    /// oldest first; none for a session that is not joined.
    pub open spec fn inbox(self, id: nat) -> Seq<EventModel> {
        if self.joined(id) {
            self.bus.queues[self.handle_of(id)]
        } else {
            Seq::empty()
        }
    }

    /// What one session must satisfy by itself.
    pub open spec fn session_ok(self, i: int) -> bool {
        let s = self.sessions[i];
        &&& s.state != SessionState::Leaving
        &&& s.state == SessionState::Joined ==> {
            &&& s.name.len() > 0
            &&& self.names.contains(s.name)
            &&& s.handle is Some
            &&& self.bus.live(s.handle->0)
        }
        &&& s.state != SessionState::Joined ==> s.handle is None
        &&& (s.state == SessionState::Connecting || s.state == SessionState::Admitting)
            ==> s.name.len() == 0
    }

    /// Validity of a hub at rest. The claimed names are exactly the names
    /// of the joined sessions, one session per name; the live
    /// subscriptions are exactly those of the joined sessions, one session
    /// per subscription; no session is caught half-way out, and a session
    /// that waits for admission has no name yet.
    pub open spec fn wf(self) -> bool {
        &&& self.bus.wf()
        &&& forall|i: int| 0 <= i < self.sessions.len() ==> #[trigger] self.session_ok(i)
        &&& forall|i: int, j: int|
            0 <= i < self.sessions.len() && 0 <= j < self.sessions.len() && i != j
                && #[trigger] self.sessions[i].state == SessionState::Joined
                && #[trigger] self.sessions[j].state == SessionState::Joined ==> {
                &&& self.sessions[i].name != self.sessions[j].name
                &&& self.sessions[i].handle != self.sessions[j].handle
            }
        &&& forall|n: Seq<char>| #[trigger]
            self.names.contains(n) ==> exists|i: int| self.owns(i, n)
        &&& forall|h: nat| #[trigger] self.bus.live(h) ==> exists|i: int| self.listens(i, h)
    }

    /// The hub with session `id` moved to `state`.
    pub open spec fn moved(self, id: nat, state: SessionState) -> HubModel {
        HubModel {
            names: self.names,
            bus: self.bus,
            sessions: self.sessions.update(id as int, self.sessions[id as int].moved_to(state)),
        }
    }

    /// A new connection: it gets the number `self.sessions.len()` and
    /// starts in `Connecting`.
    pub open spec fn connect(self) -> HubModel {
        HubModel {
            names: self.names,
            bus: self.bus,
            sessions: self.sessions.push(SessionModel::fresh()),
        }
    }

    /// The hub starts to read from session `id`: `Connecting` becomes
    /// `Admitting`. In any other state nothing changes.
    pub open spec fn begin(self, id: nat) -> HubModel {
        if self.state_of(id) == SessionState::Connecting {
            self.moved(id, SessionState::Admitting)
        } else {
            self
        }
    }

    /// Session `id` offers the candidate `name`. A free name is claimed:
    /// the session subscribes, becomes `Joined`, and its arrival is
    /// published to every subscriber, itself included. A taken name closes
    /// the session and changes nothing else.
    pub open spec fn propose(self, id: nat, name: Seq<char>) -> HubModel {
        if self.names.contains(name) {
            self.moved(id, SessionState::Closed)
        } else {
            HubModel {
                names: self.names.insert(name),
                bus: self.bus.subscribe().publish(EventModel::Joined(name)),
                sessions: self.sessions.update(
                    id as int,
                    SessionModel {
                        state: SessionState::Joined,
                        name,
                        handle: Some(self.bus.issued),
                    },
                ),
            }
        }
    }

    /// The joined session `id` says `text`: the message is published under
    /// the session's name.
    pub open spec fn say(self, id: nat, text: Seq<char>) -> HubModel {
        HubModel {
            names: self.names,
            bus: self.bus.publish(EventModel::Said(self.sessions[id as int].name, text)),
            sessions: self.sessions,
        }
    }

    /// Session `id` ends, whatever the cause. A joined session gives up its
    /// subscription, its departure is published to the others, and its
    /// name is released. A session that never joined just closes. A closed
    /// session stays as it is.
    pub open spec fn close(self, id: nat) -> HubModel {
        if self.joined(id) {
            let s = self.sessions[id as int];
            HubModel {
                names: self.names.remove(s.name),
                bus: self.bus.unsubscribe(self.handle_of(id)).publish(EventModel::Left(s.name)),
                sessions: self.sessions.update(
                    id as int,
                    SessionModel { state: SessionState::Closed, name: s.name, handle: None },
                ),
            }
        } else if self.has(id) && self.sessions[id as int].state != SessionState::Closed {
            self.moved(id, SessionState::Closed)
        } else {
            self
        }
    }

    /// The first half of the way out of a joined session `id`: it gives up
    /// its subscription and is `Leaving`. It still holds its name.
    pub open spec fn leave(self, id: nat) -> HubModel {
        let s = self.sessions[id as int];
        HubModel {
            names: self.names,
            bus: self.bus.unsubscribe(self.handle_of(id)),
            sessions: self.sessions.update(
                id as int,
                SessionModel { state: SessionState::Leaving, name: s.name, handle: None },
            ),
        }
    }

    /// The second half of the way out of a `Leaving` session `id`: if it
    /// was admitted, its departure is published and its name released;
    /// then it is `Closed`.
    pub open spec fn finish(self, id: nat) -> HubModel {
        let s = self.sessions[id as int];
        if s.name.len() > 0 {
            HubModel {
                names: self.names.remove(s.name),
                bus: self.bus.publish(EventModel::Left(s.name)),
                sessions: self.sessions.update(id as int, s.moved_to(SessionState::Closed)),
            }
        } else {
            self.moved(id, SessionState::Closed)
        }
    }

    /// The hub after session `id` read `frame`.
    ///
    /// A session that was not started yet is started first. While
    /// admitting, the first non-empty text frame is the candidate name;
    /// other frames are skipped. While joined, a non-empty text frame is a
    /// message, an empty one is skipped, and a frame that is not text ends
    /// the session.
    pub open spec fn on_frame(self, id: nat, frame: FrameModel) -> HubModel {
        match self.state_of(id) {
            SessionState::Connecting | SessionState::Admitting => match frame {
                FrameModel::Text(text) => if text.len() > 0 {
                    self.propose(id, text)
                } else {
                    self.begin(id)
                },
                FrameModel::Other => self.begin(id),
            },
            SessionState::Joined => match frame {
                FrameModel::Text(text) => if text.len() > 0 {
                    self.say(id, text)
                } else {
                    self
                },
                FrameModel::Other => self.close(id),
            },
            _ => self,
        }
    }

    /// What the hub answers when session `id` read `frame`.
    pub open spec fn verdict(self, id: nat, frame: FrameModel) -> Verdict {
        match self.state_of(id) {
            SessionState::Connecting | SessionState::Admitting => match frame {
                FrameModel::Text(text) => if text.len() == 0 {
                    Verdict::Ignored
                } else if self.names.contains(text) {
                    Verdict::Rejected
                } else {
                    Verdict::Admitted
                },
                FrameModel::Other => Verdict::Ignored,
            },
            SessionState::Joined => match frame {
                FrameModel::Text(text) => if text.len() > 0 {
                    Verdict::Relayed
                } else {
                    Verdict::Ignored
                },
                FrameModel::Other => Verdict::Ended,
            },
            _ => Verdict::Ended,
        }
    }

    /// What session `id` is to write to its client next.
    pub open spec fn outbound(self, id: nat) -> OutboundModel {
        if !self.joined(id) {
            OutboundModel::Ended
        } else if self.inbox(id).len() > 0 {
            OutboundModel::Frame(self.inbox(id)[0].text())
        } else {
            OutboundModel::Idle
        }
    }

    /// The hub after session `id` took its next outbound frame.
    pub open spec fn poll(self, id: nat) -> HubModel {
        if self.joined(id) {
            HubModel {
                names: self.names,
                bus: self.bus.take(self.handle_of(id)),
                sessions: self.sessions,
            }
        } else {
            self
        }
    }
}

} // verus!
