//! Every event keeps a valid hub valid.

use crate::model::HubModel;
use crate::session::SessionState;
use crate::wire::FrameModel;
use vstd::prelude::*;

verus! {

impl HubModel {
    /// Across a step that changes at most the session `changed`, every
    /// claimed name keeps an owner and every live subscription a listener,
    /// provided that each name and subscription of `after` was there
    /// before and did not belong to `changed`, or belongs to it now.
    proof fn lemma_owners_and_listeners(self, after: HubModel, changed: int)
        requires
            self.wf(),
            after.sessions.len() >= self.sessions.len(),
            forall|i: int|
                0 <= i < self.sessions.len() && i != changed ==> #[trigger] after.sessions[i]
                    == self.sessions[i],
            forall|n: Seq<char>| #[trigger]
                after.names.contains(n) ==> (self.names.contains(n) && !self.owns(changed, n))
                    || after.owns(changed, n),
            forall|h: nat| #[trigger]
                after.bus.live(h) ==> (self.bus.live(h) && !self.listens(changed, h))
                    || after.listens(changed, h),
        ensures
            forall|n: Seq<char>| #[trigger]
                after.names.contains(n) ==> exists|i: int| after.owns(i, n),
            forall|h: nat| #[trigger] after.bus.live(h) ==> exists|i: int| after.listens(i, h),
    {
        assert forall|n: Seq<char>| #[trigger] after.names.contains(n) implies exists|i: int|
            after.owns(i, n) by {
            if !after.owns(changed, n) {
                let i = choose|i: int| self.owns(i, n);
                assert(after.owns(i, n));
            }
        }
        assert forall|h: nat| #[trigger] after.bus.live(h) implies exists|i: int|
            after.listens(i, h) by {
            if !after.listens(changed, h) {
                let i = choose|i: int| self.listens(i, h);
                assert(after.listens(i, h));
            }
        }
    }

    /// The empty hub is valid.
    pub proof fn lemma_empty_wf(capacity: nat)
        ensures
            HubModel::empty(capacity).wf(),
    {
    }

    /// A new connection keeps the hub valid.
    pub proof fn lemma_connect_wf(self)
        requires
            self.wf(),
        ensures
            self.connect().wf(),
    {
        let after = self.connect();
        assert forall|i: int| 0 <= i < after.sessions.len() implies #[trigger] after.session_ok(
            i,
        ) by {
            if i < self.sessions.len() {
                assert(self.session_ok(i));
            }
        }
        self.lemma_owners_and_listeners(after, self.sessions.len() as int);
    }

    /// Moving a session that is not joined to a state other than `Joined`
    /// and `Leaving` keeps the hub valid, as long as a session with a name
    /// is not made to wait for admission again.
    pub proof fn lemma_moved_wf(self, id: nat, state: SessionState)
        requires
            self.wf(),
            self.has(id),
            !self.joined(id),
            state != SessionState::Joined,
            state != SessionState::Leaving,
            state != SessionState::Closed ==> self.sessions[id as int].name.len() == 0,
        ensures
            self.moved(id, state).wf(),
    {
        let after = self.moved(id, state);
        assert forall|i: int| 0 <= i < after.sessions.len() implies #[trigger] after.session_ok(
            i,
        ) by {
            assert(self.session_ok(i));
        }
        self.lemma_owners_and_listeners(after, id as int);
    }

    /// Starting a session keeps the hub valid.
    pub proof fn lemma_begin_wf(self, id: nat)
        requires
            self.wf(),
        ensures
            self.begin(id).wf(),
    {
        if self.state_of(id) == SessionState::Connecting {
            assert(self.session_ok(id as int));
            self.lemma_moved_wf(id, SessionState::Admitting);
        }
    }

    /// A candidate name, free or taken, keeps the hub valid.
    pub proof fn lemma_propose_wf(self, id: nat, name: Seq<char>)
        requires
            self.wf(),
            self.has(id),
            self.state_of(id) == SessionState::Connecting || self.state_of(id)
                == SessionState::Admitting,
            name.len() > 0,
        ensures
            self.propose(id, name).wf(),
    {
        let after = self.propose(id, name);
        if self.names.contains(name) {
            self.lemma_moved_wf(id, SessionState::Closed);
        } else {
            assert(!self.bus.live(self.bus.issued));
            assert forall|i: int| 0 <= i < after.sessions.len() implies #[trigger] after.session_ok(
                i,
            ) by {
                assert(self.session_ok(i));
            }
            assert forall|i: int, j: int|
                0 <= i < after.sessions.len() && 0 <= j < after.sessions.len() && i != j
                    && #[trigger] after.sessions[i].state == SessionState::Joined
                    && #[trigger] after.sessions[j].state == SessionState::Joined implies {
                &&& after.sessions[i].name != after.sessions[j].name
                &&& after.sessions[i].handle != after.sessions[j].handle
            } by {
                assert(self.session_ok(i));
                assert(self.session_ok(j));
            }
            self.lemma_owners_and_listeners(after, id as int);
        }
    }

    /// A message keeps the hub valid.
    pub proof fn lemma_say_wf(self, id: nat, text: Seq<char>)
        requires
            self.wf(),
        ensures
            self.say(id, text).wf(),
    {
        let after = self.say(id, text);
        assert forall|i: int| 0 <= i < after.sessions.len() implies #[trigger] after.session_ok(
            i,
        ) by {
            assert(self.session_ok(i));
        }
        self.lemma_owners_and_listeners(after, self.sessions.len() as int);
    }

    /// The end of a session keeps the hub valid.
    pub proof fn lemma_close_wf(self, id: nat)
        requires
            self.wf(),
        ensures
            self.close(id).wf(),
    {
        let after = self.close(id);
        if self.joined(id) {
            assert(self.session_ok(id as int));
            assert forall|i: int| 0 <= i < after.sessions.len() implies #[trigger] after.session_ok(
                i,
            ) by {
                assert(self.session_ok(i));
            }
            self.lemma_owners_and_listeners(after, id as int);
        } else if self.has(id) && self.sessions[id as int].state != SessionState::Closed {
            self.lemma_moved_wf(id, SessionState::Closed);
        }
    }

    /// Taking an outbound frame keeps the hub valid.
    pub proof fn lemma_poll_wf(self, id: nat)
        requires
            self.wf(),
        ensures
            self.poll(id).wf(),
    {
        let after = self.poll(id);
        if self.joined(id) {
            assert forall|i: int| 0 <= i < after.sessions.len() implies #[trigger] after.session_ok(
                i,
            ) by {
                assert(self.session_ok(i));
            }
            self.lemma_owners_and_listeners(after, self.sessions.len() as int);
        }
    }

    /// Every inbound frame keeps the hub valid.
    pub proof fn lemma_on_frame_wf(self, id: nat, frame: FrameModel)
        requires
            self.wf(),
        ensures
            self.on_frame(id, frame).wf(),
    {
        match self.state_of(id) {
            SessionState::Connecting | SessionState::Admitting => match frame {
                FrameModel::Text(text) => {
                    if text.len() > 0 {
                        self.lemma_propose_wf(id, text);
                    } else {
                        self.lemma_begin_wf(id);
                    }
                },
                FrameModel::Other => {
                    self.lemma_begin_wf(id);
                },
            },
            SessionState::Joined => match frame {
                FrameModel::Text(text) => {
                    if text.len() > 0 {
                        self.lemma_say_wf(id, text);
                    }
                },
                FrameModel::Other => {
                    self.lemma_close_wf(id);
                },
            },
            _ => {},
        }
    }
}

} // verus!
