use chat_hub::hub::{Hub, Outbound};
use chat_hub::session::{SessionState, Verdict};
use chat_hub::wire::{rejection_notice, Frame};

fn text(s: &str) -> Frame {
    Frame::Text(s.to_string())
}

fn frame(s: &str) -> Outbound {
    Outbound::Frame(s.to_string())
}

fn join(hub: &mut Hub, name: &str) -> usize {
    let id = hub.connect();
    assert_eq!(hub.handle_frame(id, text(name)), Verdict::Admitted);
    id
}

fn drain(hub: &mut Hub, id: usize) -> Vec<String> {
    let mut frames = Vec::new();
    while let Outbound::Frame(s) = hub.next_outbound(id) {
        frames.push(s);
    }
    frames
}

#[test]
fn two_clients_contend_then_chat() {
    let mut hub = Hub::new(100);

    // X connects and asks for "alice": admitted, and the answer itself
    // carries nothing to write.
    let x = hub.connect();
    assert_eq!(hub.state(x), SessionState::Connecting);
    assert_eq!(hub.handle_frame(x, text("alice")), Verdict::Admitted);
    assert_eq!(hub.state(x), SessionState::Joined);
    // X's own arrival is an ordinary event and reaches X too.
    assert_eq!(hub.next_outbound(x), frame("alice joined."));
    assert_eq!(hub.next_outbound(x), Outbound::Idle);

    // Y asks for "alice" as well: turned away, and nothing else changes.
    let y = hub.connect();
    assert_eq!(hub.handle_frame(y, text("alice")), Verdict::Rejected);
    assert_eq!(rejection_notice(), "Username already taken.");
    assert_eq!(hub.state(y), SessionState::Closed);
    assert_eq!(hub.next_outbound(y), Outbound::Ended);
    assert_eq!(hub.state(x), SessionState::Joined);
    assert!(hub.is_claimed("alice"));
    assert_eq!(hub.claimed_names(), 1);
    assert_eq!(hub.next_outbound(x), Outbound::Idle);

    // Y comes back as "bob": admitted, and X hears of it.
    let y = hub.connect();
    assert_eq!(hub.handle_frame(y, text("bob")), Verdict::Admitted);
    assert_eq!(hub.next_outbound(x), frame("bob joined."));
    assert_eq!(hub.next_outbound(x), Outbound::Idle);
    assert_eq!(hub.next_outbound(y), frame("bob joined."));

    // X says "hi": Y receives it under X's name.
    assert_eq!(hub.handle_frame(x, text("hi")), Verdict::Relayed);
    assert_eq!(hub.next_outbound(y), frame("alice :: hi"));
    assert_eq!(hub.next_outbound(y), Outbound::Idle);

    // X goes away: Y hears of it, and "alice" is free again.
    hub.disconnect(x);
    assert_eq!(hub.state(x), SessionState::Closed);
    assert_eq!(hub.next_outbound(y), frame("alice left"));
    assert_eq!(hub.next_outbound(y), Outbound::Idle);
    assert!(!hub.is_claimed("alice"));
    let z = hub.connect();
    assert_eq!(hub.handle_frame(z, text("alice")), Verdict::Admitted);
    assert!(hub.is_claimed("alice"));
    assert_eq!(hub.claimed_names(), 2);
}

#[test]
fn new_hub_is_empty() {
    let hub = Hub::new(4);
    assert_eq!(hub.session_count(), 0);
    assert_eq!(hub.claimed_names(), 0);
    assert_eq!(hub.state(0), SessionState::Closed);
}

#[test]
fn connections_are_numbered_in_order() {
    let mut hub = Hub::new(4);
    assert_eq!(hub.connect(), 0);
    assert_eq!(hub.connect(), 1);
    assert_eq!(hub.connect(), 2);
    assert_eq!(hub.session_count(), 3);
}

#[test]
fn begin_admission_moves_connecting_to_admitting_only() {
    let mut hub = Hub::new(4);
    let a = hub.connect();
    hub.begin_admission(a);
    assert_eq!(hub.state(a), SessionState::Admitting);
    hub.begin_admission(a);
    assert_eq!(hub.state(a), SessionState::Admitting);
    assert_eq!(hub.handle_frame(a, text("alice")), Verdict::Admitted);
    hub.begin_admission(a);
    assert_eq!(hub.state(a), SessionState::Joined);
    hub.disconnect(a);
    hub.begin_admission(a);
    assert_eq!(hub.state(a), SessionState::Closed);
    hub.begin_admission(99);
    assert_eq!(hub.session_count(), 1);
}

#[test]
fn many_candidates_for_one_name_have_one_winner() {
    let mut hub = Hub::new(16);
    let ids: Vec<usize> = (0..10).map(|_| hub.connect()).collect();
    let mut admitted = Vec::new();
    let mut rejected = Vec::new();
    for &id in ids.iter().rev() {
        match hub.handle_frame(id, text("dave")) {
            Verdict::Admitted => admitted.push(id),
            Verdict::Rejected => rejected.push(id),
            other => panic!("unexpected verdict {:?}", other),
        }
    }
    assert_eq!(admitted, vec![9]);
    assert_eq!(rejected.len(), 9);
    assert_eq!(hub.claimed_names(), 1);
    assert!(hub.is_claimed("dave"));
    assert_eq!(hub.state(9), SessionState::Joined);
    for id in rejected {
        assert_eq!(hub.state(id), SessionState::Closed);
        assert_eq!(hub.pending(id), 0);
    }
    // The winner heard nothing but its own arrival.
    assert_eq!(drain(&mut hub, 9), vec!["dave joined.".to_string()]);
}

#[test]
fn a_collision_does_not_disturb_the_owner() {
    let mut hub = Hub::new(16);
    let owner = join(&mut hub, "alice");
    drain(&mut hub, owner);
    let other = hub.connect();
    assert_eq!(hub.handle_frame(other, text("alice")), Verdict::Rejected);
    assert_eq!(hub.state(owner), SessionState::Joined);
    assert_eq!(hub.pending(owner), 0);
    assert_eq!(hub.handle_frame(owner, text("still here")), Verdict::Relayed);
    assert_eq!(hub.next_outbound(owner), frame("alice :: still here"));
}

#[test]
fn a_rejected_session_stays_closed() {
    let mut hub = Hub::new(16);
    join(&mut hub, "alice");
    let other = hub.connect();
    assert_eq!(hub.handle_frame(other, text("alice")), Verdict::Rejected);
    assert_eq!(hub.handle_frame(other, text("bob")), Verdict::Ended);
    assert_eq!(hub.state(other), SessionState::Closed);
    assert!(!hub.is_claimed("bob"));
}

#[test]
fn frames_that_are_not_text_are_skipped_during_admission() {
    let mut hub = Hub::new(16);
    let a = hub.connect();
    assert_eq!(hub.handle_frame(a, Frame::Other), Verdict::Ignored);
    assert_eq!(hub.state(a), SessionState::Admitting);
    assert_eq!(hub.handle_frame(a, Frame::Other), Verdict::Ignored);
    assert_eq!(hub.handle_frame(a, text("alice")), Verdict::Admitted);
    assert_eq!(hub.state(a), SessionState::Joined);
}

#[test]
fn an_empty_text_frame_is_no_candidate_name() {
    let mut hub = Hub::new(16);
    let a = hub.connect();
    assert_eq!(hub.handle_frame(a, text("")), Verdict::Ignored);
    assert_eq!(hub.state(a), SessionState::Admitting);
    assert!(!hub.is_claimed(""));
    assert_eq!(hub.claimed_names(), 0);
    assert_eq!(hub.handle_frame(a, text("alice")), Verdict::Admitted);
}

#[test]
fn a_connection_lost_during_admission_leaves_no_trace() {
    let mut hub = Hub::new(16);
    let owner = join(&mut hub, "alice");
    drain(&mut hub, owner);
    let a = hub.connect();
    hub.disconnect(a);
    assert_eq!(hub.state(a), SessionState::Closed);
    let b = hub.connect();
    hub.begin_admission(b);
    hub.disconnect(b);
    assert_eq!(hub.state(b), SessionState::Closed);
    assert_eq!(hub.claimed_names(), 1);
    assert_eq!(hub.next_outbound(owner), Outbound::Idle);
    assert_eq!(hub.handle_frame(a, text("late")), Verdict::Ended);
    assert!(!hub.is_claimed("late"));
}

#[test]
fn a_frame_that_is_not_text_ends_a_joined_session() {
    let mut hub = Hub::new(16);
    let a = join(&mut hub, "alice");
    let b = join(&mut hub, "bob");
    drain(&mut hub, b);
    assert_eq!(hub.handle_frame(a, Frame::Other), Verdict::Ended);
    assert_eq!(hub.state(a), SessionState::Closed);
    assert!(!hub.is_claimed("alice"));
    assert_eq!(hub.next_outbound(a), Outbound::Ended);
    assert_eq!(drain(&mut hub, b), vec!["alice left".to_string()]);
}

#[test]
fn an_empty_message_is_not_published() {
    let mut hub = Hub::new(16);
    let a = join(&mut hub, "alice");
    let b = join(&mut hub, "bob");
    drain(&mut hub, a);
    drain(&mut hub, b);
    assert_eq!(hub.handle_frame(a, text("")), Verdict::Ignored);
    assert_eq!(hub.pending(a), 0);
    assert_eq!(hub.pending(b), 0);
    assert_eq!(hub.state(a), SessionState::Joined);
}

#[test]
fn messages_arrive_in_publish_order_at_every_joined_session() {
    let mut hub = Hub::new(16);
    let a = join(&mut hub, "alice");
    let b = join(&mut hub, "bob");
    let c = join(&mut hub, "carol");
    for id in [a, b, c] {
        drain(&mut hub, id);
    }
    hub.handle_frame(a, text("one"));
    hub.handle_frame(b, text("two"));
    hub.handle_frame(a, text("three"));
    let expected =
        vec!["alice :: one".to_string(), "bob :: two".to_string(), "alice :: three".to_string()];
    assert_eq!(hub.pending(c), 3);
    assert_eq!(drain(&mut hub, c), expected);
    assert_eq!(drain(&mut hub, b), expected);
    assert_eq!(drain(&mut hub, a), expected);
}

#[test]
fn a_late_joiner_sees_no_history() {
    let mut hub = Hub::new(16);
    let a = join(&mut hub, "alice");
    hub.handle_frame(a, text("before"));
    let b = join(&mut hub, "bob");
    hub.handle_frame(a, text("after"));
    assert_eq!(drain(&mut hub, b), vec!["bob joined.".to_string(), "alice :: after".to_string()]);
    assert_eq!(
        drain(&mut hub, a),
        vec![
            "alice joined.".to_string(),
            "alice :: before".to_string(),
            "bob joined.".to_string(),
            "alice :: after".to_string(),
        ]
    );
}

#[test]
fn a_lagging_session_misses_events_and_nobody_else_does() {
    let mut hub = Hub::new(2);
    let slow = join(&mut hub, "slow");
    let fast = join(&mut hub, "fast");
    // slow holds "slow joined." and "fast joined.": its buffer is full.
    assert_eq!(hub.pending(slow), 2);
    drain(&mut hub, fast);
    assert_eq!(hub.handle_frame(fast, text("1")), Verdict::Relayed);
    assert_eq!(hub.next_outbound(fast), frame("fast :: 1"));
    assert_eq!(hub.handle_frame(fast, text("2")), Verdict::Relayed);
    assert_eq!(hub.next_outbound(fast), frame("fast :: 2"));
    assert_eq!(
        drain(&mut hub, slow),
        vec!["slow joined.".to_string(), "fast joined.".to_string()]
    );
    assert_eq!(hub.state(slow), SessionState::Joined);
    assert_eq!(hub.handle_frame(fast, text("3")), Verdict::Relayed);
    assert_eq!(hub.next_outbound(slow), frame("fast :: 3"));
}

#[test]
fn disconnect_closes_in_one_step_and_only_once() {
    let mut hub = Hub::new(16);
    let a = join(&mut hub, "alice");
    let b = join(&mut hub, "bob");
    drain(&mut hub, b);
    hub.disconnect(a);
    assert_eq!(hub.state(a), SessionState::Closed);
    assert_eq!(hub.next_outbound(a), Outbound::Ended);
    assert_eq!(hub.pending(a), 0);
    // A new owner of the name is not hurt by a second disconnect of the
    // old one.
    let c = join(&mut hub, "alice");
    hub.disconnect(a);
    assert!(hub.is_claimed("alice"));
    assert_eq!(hub.state(c), SessionState::Joined);
    assert_eq!(
        drain(&mut hub, b),
        vec!["alice left".to_string(), "alice joined.".to_string()]
    );
}

#[test]
fn a_leaving_session_does_not_hear_its_own_departure() {
    let mut hub = Hub::new(16);
    let a = join(&mut hub, "alice");
    hub.disconnect(a);
    assert_eq!(hub.next_outbound(a), Outbound::Ended);
    assert_eq!(hub.pending(a), 0);
}

#[test]
fn unknown_sessions_count_as_closed() {
    let mut hub = Hub::new(16);
    assert_eq!(hub.handle_frame(7, text("alice")), Verdict::Ended);
    assert_eq!(hub.next_outbound(7), Outbound::Ended);
    hub.disconnect(7);
    assert_eq!(hub.state(7), SessionState::Closed);
    assert_eq!(hub.pending(7), 0);
    assert!(!hub.is_claimed("alice"));
    assert_eq!(hub.session_count(), 0);
}

#[test]
fn the_hub_shows_what_it_keeps_for_a_session() {
    let mut hub = Hub::new(16);
    assert!(hub.session(0).is_none());
    let a = hub.connect();
    let kept = hub.session(a).unwrap();
    assert_eq!(kept.state(), SessionState::Connecting);
    assert_eq!(kept.name(), "");
    assert_eq!(hub.handle_frame(a, text("alice")), Verdict::Admitted);
    let kept = hub.session(a).unwrap();
    assert_eq!(kept.state(), SessionState::Joined);
    assert_eq!(kept.name(), "alice");
    hub.disconnect(a);
    let kept = hub.session(a).unwrap();
    assert_eq!(kept.state(), SessionState::Closed);
    assert_eq!(kept.name(), "alice");
    assert!(hub.session(a + 1).is_none());
}

#[test]
fn a_turned_away_candidate_keeps_no_name() {
    let mut hub = Hub::new(16);
    join(&mut hub, "alice");
    let other = hub.connect();
    assert_eq!(hub.handle_frame(other, text("alice")), Verdict::Rejected);
    let kept = hub.session(other).unwrap();
    assert_eq!(kept.state(), SessionState::Closed);
    assert_eq!(kept.name(), "");
}

#[test]
fn pending_never_exceeds_the_capacity() {
    let mut hub = Hub::new(3);
    let a = join(&mut hub, "alice");
    let b = join(&mut hub, "bob");
    for _ in 0..10 {
        assert_eq!(hub.handle_frame(b, text("again")), Verdict::Relayed);
        assert!(hub.pending(a) <= 3);
        assert!(hub.pending(b) <= 3);
    }
    assert_eq!(hub.pending(a), 3);
    assert_eq!(
        drain(&mut hub, a),
        vec!["alice joined.".to_string(), "bob joined.".to_string(), "bob :: again".to_string()]
    );
}
