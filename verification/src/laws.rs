//! What holds of the hub across several steps.

use crate::model::{HubModel, OutboundModel};
use crate::session::{SessionState, Verdict};
use crate::wire::{EventModel, FrameModel};
use vstd::prelude::*;

verus! {

impl HubModel {
    /// Whether session `id` exists and has not been admitted or closed.
    pub open spec fn waiting(self, id: nat) -> bool {
        self.has(id) && (self.state_of(id) == SessionState::Connecting || self.state_of(id)
            == SessionState::Admitting)
    }

    /// The hub after the sessions `ids`, one after the other in this
    /// order, each sent `name` as its candidate.
    pub open spec fn contend(self, ids: Seq<nat>, name: Seq<char>) -> HubModel
        decreases ids.len(),
    {
        if ids.len() == 0 {
            self
        } else {
            self.on_frame(ids[0], FrameModel::Text(name)).contend(ids.drop_first(), name)
        }
    }

    /// The hub after the messages `posts` came in, one after the other in
    /// this order. Each is a sender and the text that it sent.
    pub open spec fn relay(self, posts: Seq<(nat, Seq<char>)>) -> HubModel
        decreases posts.len(),
    {
        if posts.len() == 0 {
            self
        } else {
            self.on_frame(posts[0].0, FrameModel::Text(posts[0].1)).relay(posts.drop_first())
        }
    }

    /// The events that the messages `posts` are published as, in the same
    /// order.
    pub open spec fn relayed(self, posts: Seq<(nat, Seq<char>)>) -> Seq<EventModel> {
        Seq::new(
            posts.len(),
            |k: int| EventModel::Said(self.sessions[posts[k].0 as int].name, posts[k].1),
        )
    }

    /// The answers that the sessions `ids` get, in the same order.
    pub open spec fn contend_verdicts(self, ids: Seq<nat>, name: Seq<char>) -> Seq<Verdict>
        decreases ids.len(),
    {
        if ids.len() == 0 {
            Seq::empty()
        } else {
            seq![self.verdict(ids[0], FrameModel::Text(name))] + self.on_frame(
                ids[0],
                FrameModel::Text(name),
            ).contend_verdicts(ids.drop_first(), name)
        }
    }
}

/// Once the first of the candidates `ids` was taken, and only its own
/// session changed, the others are still distinct sessions that wait, and
/// the first is not among them.
proof fn lemma_rest_of_candidates(hub: HubModel, next: HubModel, ids: Seq<nat>)
    requires
        ids.len() > 0,
        ids.no_duplicates(),
        forall|k: int| 0 <= k < ids.len() ==> hub.waiting(#[trigger] ids[k]),
        next.sessions.len() == hub.sessions.len(),
        forall|i: int|
            0 <= i < hub.sessions.len() && i != ids[0] ==> #[trigger] next.sessions[i]
                == hub.sessions[i],
    ensures
        ids.drop_first().no_duplicates(),
        !ids.drop_first().contains(ids[0]),
        forall|k: int|
            0 <= k < ids.drop_first().len() ==> next.waiting(#[trigger] ids.drop_first()[k]),
        forall|x: nat| #[trigger] ids.drop_first().contains(x) ==> ids.contains(x),
{
    let rest = ids.drop_first();
    assert forall|k: int| 0 <= k < rest.len() implies next.waiting(#[trigger] rest[k]) by {
        assert(rest[k] == ids[k + 1]);
        assert(hub.waiting(ids[k + 1]));
        assert(ids[k + 1] != ids[0]);
    }
    assert forall|i: int, j: int|
        0 <= i < rest.len() && 0 <= j < rest.len() && i != j implies rest[i] != rest[j] by {
        assert(rest[i] == ids[i + 1]);
        assert(rest[j] == ids[j + 1]);
    }
    assert forall|x: nat| #[trigger] rest.contains(x) implies ids.contains(x) && x != ids[0] by {
        let j = choose|j: int| 0 <= j < rest.len() && rest[j] == x;
        assert(ids[j + 1] == x);
    }
}

/// Candidates for a name that is held are all turned away, and nothing
/// but their own state changes: no name is claimed, nothing is published,
/// and every other session is as it was.
pub proof fn lemma_contend_for_held_name(hub: HubModel, ids: Seq<nat>, name: Seq<char>)
    requires
        hub.wf(),
        name.len() > 0,
        hub.names.contains(name),
        ids.no_duplicates(),
        forall|k: int| 0 <= k < ids.len() ==> hub.waiting(#[trigger] ids[k]),
    ensures
        hub.contend(ids, name).wf(),
        hub.contend(ids, name).names == hub.names,
        hub.contend(ids, name).bus == hub.bus,
        hub.contend(ids, name).sessions.len() == hub.sessions.len(),
        hub.contend_verdicts(ids, name).len() == ids.len(),
        forall|k: int|
            0 <= k < ids.len() ==> #[trigger] hub.contend_verdicts(ids, name)[k]
                == Verdict::Rejected,
        forall|k: int|
            0 <= k < ids.len() ==> hub.contend(ids, name).state_of(#[trigger] ids[k])
                == SessionState::Closed,
        forall|i: int|
            0 <= i < hub.sessions.len() && !ids.contains(i as nat) ==> #[trigger] hub.contend(
                ids,
                name,
            ).sessions[i] == hub.sessions[i],
    decreases ids.len(),
{
    if ids.len() > 0 {
        let first = ids[0];
        let rest = ids.drop_first();
        let next = hub.on_frame(first, FrameModel::Text(name));
        assert(hub.waiting(first));
        hub.lemma_on_frame_wf(first, FrameModel::Text(name));
        assert(next == hub.moved(first, SessionState::Closed));
        lemma_rest_of_candidates(hub, next, ids);
        lemma_contend_for_held_name(next, rest, name);
        let after = hub.contend(ids, name);
        let verdicts = hub.contend_verdicts(ids, name);
        assert(after == next.contend(rest, name));
        assert forall|k: int| 0 <= k < ids.len() implies #[trigger] verdicts[k]
            == Verdict::Rejected by {
            if k > 0 {
                assert(verdicts[k] == next.contend_verdicts(rest, name)[k - 1]);
            }
        }
        assert forall|k: int| 0 <= k < ids.len() implies after.state_of(#[trigger] ids[k])
            == SessionState::Closed by {
            if k > 0 {
                assert(ids[k] == rest[k - 1]);
            } else {
                assert(after.sessions[first as int] == next.sessions[first as int]);
            }
        }
        assert forall|i: int|
            0 <= i < hub.sessions.len() && !ids.contains(i as nat) implies #[trigger] after.sessions[i]
            == hub.sessions[i] by {
            assert(i as nat != first);
            assert(!rest.contains(i as nat));
            assert(after.sessions[i] == next.sessions[i]);
        }
    }
}

/// However many sessions send the same candidate name, and in whatever
/// order the hub takes them, one session holds the name afterwards and
/// every other candidate is turned away.
///
/// If the name was free, the first candidate taken is admitted and is the
/// only session joined under the name. If the name was held, no candidate
/// is admitted. Every candidate that is not admitted is answered with
/// `Rejected` and closed. The set of names afterwards is the set before
/// with the name added.
///
/// A candidate that is turned away disturbs nobody: the bus is as the
/// first candidate's step left it, so nothing is published on account of
/// the others, and every session that is not among the candidates is as it
/// was.
pub proof fn law_one_owner_per_name(hub: HubModel, ids: Seq<nat>, name: Seq<char>)
    requires
        hub.wf(),
        name.len() > 0,
        ids.len() > 0,
        ids.no_duplicates(),
        forall|k: int| 0 <= k < ids.len() ==> hub.waiting(#[trigger] ids[k]),
    ensures
        hub.contend(ids, name).wf(),
        hub.contend(ids, name).names == hub.names.insert(name),
        hub.contend_verdicts(ids, name).len() == ids.len(),
        hub.contend_verdicts(ids, name)[0] == if hub.names.contains(name) {
            Verdict::Rejected
        } else {
            Verdict::Admitted
        },
        forall|k: int|
            1 <= k < ids.len() ==> #[trigger] hub.contend_verdicts(ids, name)[k]
                == Verdict::Rejected,
        !hub.names.contains(name) ==> hub.contend(ids, name).owns(ids[0] as int, name),
        forall|k: int|
            0 <= k < ids.len() && (k > 0 || hub.names.contains(name)) ==> hub.contend(
                ids,
                name,
            ).state_of(#[trigger] ids[k]) == SessionState::Closed,
        forall|i: int, j: int|
            hub.contend(ids, name).owns(i, name) && hub.contend(ids, name).owns(j, name) ==> i
                == j,
        exists|i: int| hub.contend(ids, name).owns(i, name),
        hub.contend(ids, name).bus == hub.on_frame(ids[0], FrameModel::Text(name)).bus,
        hub.names.contains(name) ==> hub.contend(ids, name).bus == hub.bus,
        hub.contend(ids, name).sessions.len() == hub.sessions.len(),
        forall|i: int|
            0 <= i < hub.sessions.len() && !ids.contains(i as nat) ==> #[trigger] hub.contend(
                ids,
                name,
            ).sessions[i] == hub.sessions[i],
{
    let after = hub.contend(ids, name);
    let verdicts = hub.contend_verdicts(ids, name);
    let first = ids[0];
    let rest = ids.drop_first();
    let next = hub.on_frame(first, FrameModel::Text(name));
    assert(hub.waiting(first));
    if hub.names.contains(name) {
        lemma_contend_for_held_name(hub, ids, name);
        assert(hub.names.insert(name) =~= hub.names);
        assert(next == hub.moved(first, SessionState::Closed));
    } else {
        hub.lemma_on_frame_wf(first, FrameModel::Text(name));
        assert(next == hub.propose(first, name));
        lemma_rest_of_candidates(hub, next, ids);
        lemma_contend_for_held_name(next, rest, name);
        assert(after == next.contend(rest, name));
        assert forall|k: int| 1 <= k < ids.len() implies #[trigger] verdicts[k]
            == Verdict::Rejected by {
            assert(verdicts[k] == next.contend_verdicts(rest, name)[k - 1]);
        }
        assert(after.sessions[first as int] == next.sessions[first as int]);
        assert(after.owns(first as int, name));
        assert forall|k: int|
            0 <= k < ids.len() && (k > 0 || hub.names.contains(name)) implies after.state_of(
            #[trigger] ids[k],
        ) == SessionState::Closed by {
            assert(ids[k] == rest[k - 1]);
        }
        assert forall|i: int|
            0 <= i < hub.sessions.len() && !ids.contains(i as nat) implies #[trigger] after.sessions[i]
            == hub.sessions[i] by {
            assert(i as nat != first);
            assert(!rest.contains(i as nat));
            assert(after.sessions[i] == next.sessions[i]);
        }
    }
    assert(after.names.contains(name));
    let owner = choose|i: int| after.owns(i, name);
    assert(after.owns(owner, name));
}

/// A session goes out through `Leaving`. The end of a joined session is
/// its two halves in a row: it gives up its subscription, then its
/// departure is published and its name released. A candidate that is
/// turned away passes `Leaving` with nothing to clean up.
pub proof fn law_sessions_go_out_through_leaving(hub: HubModel, id: nat, name: Seq<char>)
    requires
        hub.wf(),
        hub.has(id),
    ensures
        hub.joined(id) ==> hub.leave(id).state_of(id) == SessionState::Leaving,
        hub.joined(id) ==> hub.close(id) == hub.leave(id).finish(id),
        hub.waiting(id) && hub.names.contains(name) ==> hub.propose(id, name) == hub.moved(
            id,
            SessionState::Leaving,
        ).finish(id),
{
    assert(hub.session_ok(id as int));
    if hub.joined(id) {
        let direct = hub.close(id);
        let staged = hub.leave(id).finish(id);
        assert(direct.sessions =~= staged.sessions);
        assert(direct.bus.queues =~= staged.bus.queues);
    }
    if hub.waiting(id) && hub.names.contains(name) {
        let direct = hub.propose(id, name);
        let staged = hub.moved(id, SessionState::Leaving).finish(id);
        assert(direct.sessions =~= staged.sessions);
    }
}

/// No step moves a session backwards in its life cycle, and a closed
/// session stays closed: whatever session `id` reads, whichever session
/// `other` ends, starts or takes an outbound frame, and whoever connects.
pub proof fn law_sessions_only_move_forward(
    hub: HubModel,
    id: nat,
    frame: FrameModel,
    other: nat,
    watched: nat,
)
    requires
        hub.wf(),
        hub.has(watched),
    ensures
        hub.on_frame(id, frame).state_of(watched).rank() >= hub.state_of(watched).rank(),
        hub.close(other).state_of(watched).rank() >= hub.state_of(watched).rank(),
        hub.begin(other).state_of(watched).rank() >= hub.state_of(watched).rank(),
        hub.poll(other).state_of(watched) == hub.state_of(watched),
        hub.connect().state_of(watched) == hub.state_of(watched),
        hub.on_frame(id, frame).sessions.len() == hub.sessions.len(),
        hub.close(other).sessions.len() == hub.sessions.len(),
{
}

/// Once a joined session has ended, its name is free: the session is
/// closed, the name is no longer claimed, and the next session that asks
/// for the name gets it.
pub proof fn law_closed_session_frees_name(hub: HubModel, id: nat, next: nat)
    requires
        hub.wf(),
        hub.joined(id),
        hub.waiting(next),
    ensures
        hub.close(id).wf(),
        hub.close(id).state_of(id) == SessionState::Closed,
        !hub.close(id).names.contains(hub.sessions[id as int].name),
        hub.close(id).names == hub.names.remove(hub.sessions[id as int].name),
        hub.close(id).verdict(next, FrameModel::Text(hub.sessions[id as int].name))
            == Verdict::Admitted,
        hub.close(id).on_frame(next, FrameModel::Text(hub.sessions[id as int].name)).owns(
            next as int,
            hub.sessions[id as int].name,
        ),
{
    hub.lemma_close_wf(id);
    assert(hub.session_ok(id as int));
}

/// In a valid hub the claimed names are exactly the names of the joined
/// sessions: a session that is closed, or was never admitted, holds none.
pub proof fn law_names_belong_to_joined_sessions(hub: HubModel, name: Seq<char>)
    requires
        hub.wf(),
    ensures
        hub.names.contains(name) <==> exists|i: int| hub.owns(i, name),
{
    if exists|i: int| hub.owns(i, name) {
        let i = choose|i: int| hub.owns(i, name);
        assert(hub.session_ok(i));
    }
}

/// A message from a joined session is appended to the pending events of
/// every session that is joined at that moment and has room in its
/// buffer, the sender included.
pub proof fn law_message_reaches_joined_sessions(
    hub: HubModel,
    sender: nat,
    text: Seq<char>,
    receiver: nat,
)
    requires
        hub.wf(),
        hub.joined(sender),
        hub.joined(receiver),
        text.len() > 0,
        hub.inbox(receiver).len() < hub.bus.capacity,
    ensures
        hub.verdict(sender, FrameModel::Text(text)) == Verdict::Relayed,
        hub.on_frame(sender, FrameModel::Text(text)).inbox(receiver) == hub.inbox(receiver).push(
            EventModel::Said(hub.sessions[sender as int].name, text),
        ),
{
    assert(hub.session_ok(receiver as int));
}

/// Messages reach a joined session in the order in which they were
/// published: however many come in from joined senders, a session with
/// room for all of them has them pending behind what it had, in that
/// order. Messages change neither the names nor any session.
pub proof fn law_messages_keep_publish_order(
    hub: HubModel,
    posts: Seq<(nat, Seq<char>)>,
    receiver: nat,
)
    requires
        hub.wf(),
        hub.joined(receiver),
        forall|k: int|
            0 <= k < posts.len() ==> hub.joined((#[trigger] posts[k]).0) && posts[k].1.len() > 0,
        hub.inbox(receiver).len() + posts.len() <= hub.bus.capacity,
    ensures
        hub.relay(posts).wf(),
        hub.relay(posts).names == hub.names,
        hub.relay(posts).sessions == hub.sessions,
        hub.relay(posts).inbox(receiver) == hub.inbox(receiver) + hub.relayed(posts),
    decreases posts.len(),
{
    if posts.len() == 0 {
        assert(hub.inbox(receiver) + hub.relayed(posts) =~= hub.inbox(receiver));
    } else {
        let rest = posts.drop_first();
        let next = hub.on_frame(posts[0].0, FrameModel::Text(posts[0].1));
        assert(hub.joined(posts[0].0));
        assert(hub.session_ok(receiver as int));
        hub.lemma_on_frame_wf(posts[0].0, FrameModel::Text(posts[0].1));
        assert forall|k: int| 0 <= k < rest.len() implies next.joined((#[trigger] rest[k]).0)
            && rest[k].1.len() > 0 by {
            assert(rest[k] == posts[k + 1]);
        }
        law_messages_keep_publish_order(next, rest, receiver);
        assert(next.relayed(rest) =~= hub.relayed(posts).drop_first());
        assert(hub.relay(posts).inbox(receiver) =~= hub.inbox(receiver) + hub.relayed(posts));
    }
}

/// A joined session is handed its pending events oldest first: the next
/// outbound frame is the text of the oldest one, and taking it leaves the
/// others in place.
pub proof fn law_outbound_is_oldest_first(hub: HubModel, id: nat)
    requires
        hub.wf(),
        hub.joined(id),
        hub.inbox(id).len() > 0,
    ensures
        hub.outbound(id) == OutboundModel::Frame(hub.inbox(id)[0].text()),
        hub.poll(id).inbox(id) == hub.inbox(id).drop_first(),
{
    assert(hub.session_ok(id as int));
}

/// A session that joins after a message was published does not see it:
/// the only event it has pending is its own arrival.
pub proof fn law_late_joiner_sees_no_history(
    hub: HubModel,
    sender: nat,
    text: Seq<char>,
    late: nat,
    name: Seq<char>,
)
    requires
        hub.wf(),
        hub.joined(sender),
        text.len() > 0,
        hub.waiting(late),
        name.len() > 0,
        !hub.names.contains(name),
    ensures
        hub.on_frame(sender, FrameModel::Text(text)).on_frame(late, FrameModel::Text(name)).joined(
            late,
        ),
        hub.on_frame(sender, FrameModel::Text(text)).on_frame(late, FrameModel::Text(name)).inbox(
            late,
        ) == if hub.bus.capacity > 0 {
            seq![EventModel::Joined(name)]
        } else {
            Seq::<EventModel>::empty()
        },
        !hub.on_frame(sender, FrameModel::Text(text)).on_frame(late, FrameModel::Text(name)).inbox(
            late,
        ).contains(EventModel::Said(hub.sessions[sender as int].name, text)),
{
    let middle = hub.on_frame(sender, FrameModel::Text(text));
    let after = middle.on_frame(late, FrameModel::Text(name));
    assert(middle.waiting(late));
    assert(after == middle.propose(late, name));
    let inbox = after.inbox(late);
    if hub.bus.capacity > 0 {
        assert(inbox =~= seq![EventModel::Joined(name)]);
        assert(inbox[0] != EventModel::Said(hub.sessions[sender as int].name, text));
    } else {
        assert(inbox =~= Seq::<EventModel>::empty());
    }
}

/// When the inbound side of a session ends, the session is closed in that
/// one step: its subscription is gone, its outbound side is told to stop,
/// and nothing that reaches the session later changes the hub.
pub proof fn law_end_of_input_closes_session(hub: HubModel, id: nat, frame: FrameModel)
    requires
        hub.wf(),
        hub.has(id),
    ensures
        hub.close(id).state_of(id) == SessionState::Closed,
        hub.close(id).outbound(id) == OutboundModel::Ended,
        hub.joined(id) ==> !hub.close(id).bus.live(hub.handle_of(id)),
        hub.close(id).close(id) == hub.close(id),
        hub.close(id).on_frame(id, frame) == hub.close(id),
        hub.close(id).poll(id) == hub.close(id),
        hub.joined(id) ==> hub.on_frame(id, FrameModel::Other) == hub.close(id),
{
}

} // verus!
