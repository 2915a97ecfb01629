//! Chat messages, the registration payload, and the messages the relay itself sends.
use vstd::prelude::*;
use vstd::string::*;

use crate::color::Color;

verus! {

/// What a chat message says: who it is from, its text, and the colour to show it in.
pub struct Envelope {
    pub user_name: Seq<char>,
    pub content: Seq<char>,
    pub color: Color,
}

/// One chat message as it travels to a client.
pub struct Message {
    pub user_name: String,
    pub content: String,
    pub color: Color,
}

/// What a client announces when it connects: its display name and colour.
pub struct NewUserSet {
    pub user_name: String,
    pub color: Color,
}

/// A message and the connection it goes to.
pub struct Delivery {
    pub to: u64,
    pub message: Message,
}

impl View for Message {
    type V = Envelope;

    open spec fn view(&self) -> Envelope {
        Envelope { user_name: self.user_name@, content: self.content@, color: self.color }
    }
}

impl View for Delivery {
    type V = (u64, Envelope);

    open spec fn view(&self) -> (u64, Envelope) {
        (self.to, self.message@)
    }
}

/// The envelopes of a list of deliveries, with their recipients.
pub open spec fn deliveries_view(v: Seq<Delivery>) -> Seq<(u64, Envelope)> {
    v.map_values(|d: Delivery| d@)
}

/// A message from the relay's `ERROR` sender, in red.
pub open spec fn error_envelope(msg: Seq<char>) -> Envelope {
    Envelope { user_name: "ERROR"@, content: msg, color: Color::Red }
}

/// A message from the relay's `SERVER` sender, in cyan.
pub open spec fn server_envelope(msg: Seq<char>) -> Envelope {
    Envelope { user_name: "SERVER"@, content: msg, color: Color::Cyan }
}

/// What a connection is told once it has registered under `name`.
pub open spec fn welcome_envelope(name: Seq<char>) -> Envelope {
    server_envelope("connected succesfully as '"@ + name + "'"@)
}

impl Message {
    /// A message from the `ERROR` sender.
    pub fn error(msg: &str) -> (r: Message)
        ensures
            r@ == error_envelope(msg@),
    {
        Message {
            user_name: String::from_str("ERROR"),
            content: String::from_str(msg),
            color: Color::Red,
        }
    }

    /// A message from the `SERVER` sender.
    pub fn server(msg: &str) -> (r: Message)
        ensures
            r@ == server_envelope(msg@),
    {
        Message {
            user_name: String::from_str("SERVER"),
            content: String::from_str(msg),
            color: Color::Cyan,
        }
    }

    /// A copy of this message.
    pub fn duplicate(&self) -> (r: Message)
        ensures
            r@ == self@,
    {
        Message {
            user_name: String::from_str(self.user_name.as_str()),
            content: String::from_str(self.content.as_str()),
            color: self.color,
        }
    }
}

/// The greeting sent to a connection that has registered as `name`.
pub fn welcome(name: &str) -> (r: Message)
    ensures
        r@ == welcome_envelope(name@),
{
    let mut text = String::from_str("connected succesfully as '");
    text.append(name);
    text.append("'");
    Message::server(text.as_str())
}

} // verus!
