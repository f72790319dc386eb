//! The values that travel: inbound frames, chat events and the text
//! frames that events are written as.

use vstd::prelude::*;
use vstd::string::*;

verus! {

/// What a chat event is, as mathematics: the strings are sequences of
/// characters.
pub enum EventModel {
    /// The named client joined.
    Joined(Seq<char>),
    /// The named client said the given text.
    Said(Seq<char>, Seq<char>),
    /// The named client left.
    Left(Seq<char>),
}

impl EventModel {
    /// The display name that the event carries.
    pub open spec fn name(self) -> Seq<char> {
        match self {
            EventModel::Joined(n) => n,
            EventModel::Said(n, _) => n,
            EventModel::Left(n) => n,
        }
    }

    /// The text frame that the event is written as.
    pub open spec fn text(self) -> Seq<char> {
        match self {
            EventModel::Joined(n) => n + " joined."@,
            EventModel::Said(n, t) => n + " :: "@ + t,
            EventModel::Left(n) => n + " left"@,
        }
    }
}

/// An immutable announcement or relayed message.
#[derive(Debug, PartialEq, Eq)]
pub enum ChatEvent {
    /// `name` was admitted.
    Joined { name: String },
    /// `name` sent `text`.
    Said { name: String, text: String },
    /// `name` is gone.
    Left { name: String },
}

impl View for ChatEvent {
    type V = EventModel;

    open spec fn view(&self) -> EventModel {
        match self {
            ChatEvent::Joined { name } => EventModel::Joined(name@),
            ChatEvent::Said { name, text } => EventModel::Said(name@, text@),
            ChatEvent::Left { name } => EventModel::Left(name@),
        }
    }
}

impl ChatEvent {
    /// An independent copy of the event.
    pub fn duplicate(&self) -> (copy: ChatEvent)
        ensures
            copy@ == self@,
    {
        match self {
            ChatEvent::Joined { name } => ChatEvent::Joined { name: name.clone() },
            ChatEvent::Said { name, text } => ChatEvent::Said {
                name: name.clone(),
                text: text.clone(),
            },
            ChatEvent::Left { name } => ChatEvent::Left { name: name.clone() },
        }
    }

    /// The display name that the event carries.
    pub fn name(&self) -> (name: &str)
        ensures
            name@ == self@.name(),
    {
        match self {
            ChatEvent::Joined { name } => name.as_str(),
            ChatEvent::Said { name, .. } => name.as_str(),
            ChatEvent::Left { name } => name.as_str(),
        }
    }

    /// Writes the event as the text frame that clients receive:
    /// `"<name> joined."`, `"<name> :: <message>"` or `"<name> left"`.
    pub fn to_frame(&self) -> (frame: String)
        ensures
            frame@ == self@.text(),
    {
        match self {
            ChatEvent::Joined { name } => name.clone().concat(" joined."),
            ChatEvent::Said { name, text } => {
                name.clone().concat(" :: ").concat(text.as_str())
            },
            ChatEvent::Left { name } => name.clone().concat(" left"),
        }
    }
}

/// The notice sent to a client whose candidate name is already claimed.
pub open spec fn rejection_text() -> Seq<char> {
    "Username already taken."@
}

/// The notice sent to a client whose candidate name is already claimed.
pub fn rejection_notice() -> (notice: String)
    ensures
        notice@ == rejection_text(),
{
    String::from_str("Username already taken.")
}

/// A frame read from a client, as far as the hub tells frames apart.
#[derive(Debug, PartialEq, Eq)]
pub enum Frame {
    /// A text frame with its payload.
    Text(String),
    /// Any other kind of frame: binary, ping, pong or close.
    Other,
}

/// What a frame is, as mathematics.
pub enum FrameModel {
    /// A text frame with its payload.
    Text(Seq<char>),
    /// Any other kind of frame.
    Other,
}

impl View for Frame {
    type V = FrameModel;

    open spec fn view(&self) -> FrameModel {
        match self {
            Frame::Text(t) => FrameModel::Text(t@),
            Frame::Other => FrameModel::Other,
        }
    }
}

} // verus!
