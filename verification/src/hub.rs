//! The hub: the claimed names, the bus and the sessions behind one value.
//!
//! Every method is one atomic step. What a step does is said by the
//! function of the same purpose on [`HubModel`]; the methods here compute
//! it.

use crate::bus::{BroadcastBus, Received};
use crate::model::{HubModel, OutboundModel};
use crate::registry::{exists_name, NameRegistry};
use crate::session::{Session, SessionModel, SessionState, Verdict};
use crate::wire::{ChatEvent, Frame};
use vstd::prelude::*;

verus! {

/// What a session is to do on its outbound side.
#[derive(Debug, PartialEq, Eq)]
pub enum Outbound {
    /// Write this text frame to the client.
    Frame(String),
    /// Nothing is pending: wait for the next publish.
    Idle,
    /// The session is not joined: stop.
    Ended,
}

impl View for Outbound {
    type V = OutboundModel;

    open spec fn view(&self) -> OutboundModel {
        match self {
            Outbound::Frame(text) => OutboundModel::Frame(text@),
            Outbound::Idle => OutboundModel::Idle,
            Outbound::Ended => OutboundModel::Ended,
        }
    }
}

/// The chat hub.
pub struct Hub {
    registry: NameRegistry,
    bus: BroadcastBus,
    sessions: Vec<Session>,
}

impl Hub {
    /// The hub as mathematics.
    pub closed spec fn view(&self) -> HubModel {
        HubModel {
            names: self.registry@,
            bus: self.bus@,
            sessions: Seq::new(self.sessions.len() as nat, |i: int| self.sessions[i]@),
        }
    }

    /// Validity: the parts are valid, and so is the whole.
    pub closed spec fn wf(&self) -> bool {
        &&& self.registry.wf()
        &&& self.bus.wf()
        &&& self@.wf()
    }

    /// A valid hub has a valid model.
    pub proof fn lemma_wf(&self)
        requires
            self.wf(),
        ensures
            self@.wf(),
    {
    }

    /// A hub that nobody connected to yet. Each subscriber's buffer will
    /// hold up to `capacity` events.
    pub fn new(capacity: usize) -> (hub: Hub)
        ensures
            hub.wf(),
            hub@ == HubModel::empty(capacity as nat),
    {
        let hub = Hub {
            registry: NameRegistry::new(),
            bus: BroadcastBus::new(capacity),
            sessions: Vec::new(),
        };
        proof {
            assert(hub@.sessions =~= Seq::<SessionModel>::empty());
            HubModel::lemma_empty_wf(capacity as nat);
        }
        hub
    }

    /// Registers a connection whose transport was just established and
    /// returns its number.
    pub fn connect(&mut self) -> (id: usize)
        requires
            old(self).wf(),
        ensures
            final(self).wf(),
            id == old(self)@.sessions.len(),
            final(self)@ == old(self)@.connect(),
    {
        let id = self.sessions.len();
        self.sessions.push(Session::new());
        proof {
            assert(self@.sessions =~= old(self)@.connect().sessions);
            old(self)@.lemma_connect_wf();
        }
        id
    }

    /// The hub starts to read from session `id`.
    pub fn begin_admission(&mut self, id: usize)
        requires
            old(self).wf(),
        ensures
            final(self).wf(),
            final(self)@ == old(self)@.begin(id as nat),
    {
        if id < self.sessions.len() {
            match self.sessions[id].state {
                SessionState::Connecting => {
                    self.sessions[id].state = SessionState::Admitting;
                    assert(self@.sessions =~= old(self)@.begin(id as nat).sessions);
                },
                _ => {},
            }
        }
        proof {
            old(self)@.lemma_begin_wf(id as nat);
        }
    }

    /// Session `id` read `frame`: the hub acts on it and says what it did.
    ///
    /// After `Rejected` the client is owed the rejection notice and the
    /// connection is to be dropped; after `Ended` the connection is to be
    /// dropped.
    pub fn handle_frame(&mut self, id: usize, frame: Frame) -> (verdict: Verdict)
        requires
            old(self).wf(),
        ensures
            final(self).wf(),
            final(self)@ == old(self)@.on_frame(id as nat, frame@),
            verdict == old(self)@.verdict(id as nat, frame@),
    {
        proof {
            old(self)@.lemma_on_frame_wf(id as nat, frame@);
        }
        if id >= self.sessions.len() {
            return Verdict::Ended;
        }
        match self.sessions[id].state {
            SessionState::Connecting | SessionState::Admitting => {
                match frame {
                    Frame::Text(text) => {
                        if text.as_str().is_empty() {
                            self.begin_admission(id);
                            Verdict::Ignored
                        } else {
                            self.propose(id, text)
                        }
                    },
                    Frame::Other => {
                        self.begin_admission(id);
                        Verdict::Ignored
                    },
                }
            },
            SessionState::Joined => {
                match frame {
                    Frame::Text(text) => {
                        if text.as_str().is_empty() {
                            Verdict::Ignored
                        } else {
                            let event = ChatEvent::Said {
                                name: self.sessions[id].name.clone(),
                                text,
                            };
                            self.bus.publish(&event);
                            assert(self@.sessions =~= old(self)@.sessions);
                            Verdict::Relayed
                        }
                    },
                    Frame::Other => {
                        self.disconnect(id);
                        Verdict::Ended
                    },
                }
            },
            _ => Verdict::Ended,
        }
    }

    /// Session `id`, not yet joined, offers the non-empty candidate `name`.
    fn propose(&mut self, id: usize, name: String) -> (verdict: Verdict)
        requires
            old(self).wf(),
            id < old(self).sessions.len(),
            old(self)@.state_of(id as nat) == SessionState::Connecting || old(self)@.state_of(
                id as nat,
            ) == SessionState::Admitting,
            name@.len() > 0,
        ensures
            final(self).wf(),
            final(self)@ == old(self)@.propose(id as nat, name@),
            verdict == if old(self)@.names.contains(name@) {
                Verdict::Rejected
            } else {
                Verdict::Admitted
            },
    {
        proof {
            old(self)@.lemma_propose_wf(id as nat, name@);
        }
        match exists_name(&mut self.registry, name.as_str()) {
            Ok(_) => {
                let handle = self.bus.subscribe();
                let event = ChatEvent::Joined { name: name.clone() };
                self.bus.publish(&event);
                self.sessions[id].state = SessionState::Joined;
                self.sessions[id].name = name;
                self.sessions[id].handle = Some(handle);
                assert(self@.sessions =~= old(self)@.propose(id as nat, name@).sessions);
                Verdict::Admitted
            },
            Err(_) => {
                assert(self@.names =~= old(self)@.names);
                self.sessions[id].state = SessionState::Leaving;
                self.sessions[id].state = SessionState::Closed;
                assert(self@.sessions =~= old(self)@.propose(id as nat, name@).sessions);
                Verdict::Rejected
            },
        }
    }

    /// Session `id` ends: its read or write side failed, its client went
    /// away, or the host gave it up. Safe to call again: a closed session
    /// stays as it is.
    pub fn disconnect(&mut self, id: usize)
        requires
            old(self).wf(),
        ensures
            final(self).wf(),
            final(self)@ == old(self)@.close(id as nat),
    {
        proof {
            old(self)@.lemma_close_wf(id as nat);
        }
        if id >= self.sessions.len() {
            return ;
        }
        match self.sessions[id].state {
            SessionState::Joined => {
                proof {
                    assert(old(self)@.session_ok(id as int));
                }
                self.sessions[id].state = SessionState::Leaving;
                match self.sessions[id].handle {
                    Some(handle) => {
                        self.bus.unsubscribe(handle);
                    },
                    None => {},
                }
                self.sessions[id].handle = None;
                let event = ChatEvent::Left { name: self.sessions[id].name.clone() };
                self.bus.publish(&event);
                self.registry.release(self.sessions[id].name.as_str());
                self.sessions[id].state = SessionState::Closed;
                assert(self@.sessions =~= old(self)@.close(id as nat).sessions);
            },
            SessionState::Closed => {},
            _ => {
                self.sessions[id].state = SessionState::Closed;
                assert(self@.sessions =~= old(self)@.close(id as nat).sessions);
            },
        }
    }

    /// Takes the next frame that session `id` is to write to its client.
    pub fn next_outbound(&mut self, id: usize) -> (outbound: Outbound)
        requires
            old(self).wf(),
        ensures
            final(self).wf(),
            final(self)@ == old(self)@.poll(id as nat),
            outbound@ == old(self)@.outbound(id as nat),
    {
        proof {
            old(self)@.lemma_poll_wf(id as nat);
        }
        if id >= self.sessions.len() {
            return Outbound::Ended;
        }
        match self.sessions[id].state {
            SessionState::Joined => {
                proof {
                    assert(old(self)@.session_ok(id as int));
                }
                match self.sessions[id].handle {
                    Some(handle) => {
                        let received = self.bus.try_recv(handle);
                        assert(self@.sessions =~= old(self)@.sessions);
                        match received {
                            Received::Event(event) => Outbound::Frame(event.to_frame()),
                            Received::Empty => Outbound::Idle,
                            Received::Closed => Outbound::Ended,
                        }
                    },
                    None => Outbound::Ended,
                }
            },
            _ => Outbound::Ended,
        }
    }

    /// Where session `id` stands; a number that no session has counts as
    /// closed.
    pub fn state(&self, id: usize) -> (state: SessionState)
        ensures
            state == self@.state_of(id as nat),
    {
        if id < self.sessions.len() {
            self.sessions[id].state
        } else {
            SessionState::Closed
        }
    }

    /// What the hub keeps for session `id`, if there is such a session.
    pub fn session(&self, id: usize) -> (found: Option<&Session>)
        ensures
            match found {
                Some(session) => self@.has(id as nat) && session@ == self@.sessions[id as int],
                None => !self@.has(id as nat),
            },
    {
        if id < self.sessions.len() {
            Some(&self.sessions[id])
        } else {
            None
        }
    }

    /// Whether `name` is claimed.
    pub fn is_claimed(&self, name: &str) -> (claimed: bool)
        ensures
            claimed == self@.names.contains(name@),
    {
        self.registry.contains(name)
    }

    /// How many names are claimed.
    pub fn claimed_names(&self) -> (count: usize)
        requires
            self.wf(),
        ensures
            count == self@.names.len(),
    {
        self.registry.len()
    }

    /// How many connections the hub has seen.
    pub fn session_count(&self) -> (count: usize)
        ensures
            count == self@.sessions.len(),
    {
        self.sessions.len()
    }

    /// How many events wait to be written to the client of session `id`.
    pub fn pending(&self, id: usize) -> (count: usize)
        requires
            self.wf(),
        ensures
            count == self@.inbox(id as nat).len(),
            count <= self@.bus.capacity,
    {
        if id >= self.sessions.len() {
            return 0;
        }
        match self.sessions[id].state {
            SessionState::Joined => {
                proof {
                    assert(self@.session_ok(id as int));
                }
                match self.sessions[id].handle {
                    Some(handle) => self.bus.pending(handle),
                    None => 0,
                }
            },
            _ => 0,
        }
    }
}

} // verus!
