use chat_hub::wire::{rejection_notice, ChatEvent, Frame};

#[test]
fn join_event_frame() {
    let event = ChatEvent::Joined { name: "bob".to_string() };
    assert_eq!(event.to_frame(), "bob joined.");
}

#[test]
fn message_event_frame() {
    let event = ChatEvent::Said { name: "alice".to_string(), text: "hi".to_string() };
    assert_eq!(event.to_frame(), "alice :: hi");
}

#[test]
fn leave_event_frame() {
    let event = ChatEvent::Left { name: "alice".to_string() };
    assert_eq!(event.to_frame(), "alice left");
}

#[test]
fn message_text_is_relayed_verbatim() {
    let event = ChatEvent::Said { name: "a b".to_string(), text: " :: joined. ".to_string() };
    assert_eq!(event.to_frame(), "a b ::  :: joined. ");
}

#[test]
fn event_carries_its_name() {
    assert_eq!(ChatEvent::Joined { name: "x".to_string() }.name(), "x");
    assert_eq!(ChatEvent::Left { name: "y".to_string() }.name(), "y");
    assert_eq!(ChatEvent::Said { name: "z".to_string(), text: "t".to_string() }.name(), "z");
}

#[test]
fn duplicate_equals_the_event() {
    let event = ChatEvent::Said { name: "alice".to_string(), text: "hi".to_string() };
    assert_eq!(event.duplicate(), event);
}

#[test]
fn rejection_notice_text() {
    assert_eq!(rejection_notice(), "Username already taken.");
}

#[test]
fn frames_compare_by_content() {
    assert_eq!(Frame::Text("a".to_string()), Frame::Text("a".to_string()));
    assert_ne!(Frame::Text("a".to_string()), Frame::Other);
}
