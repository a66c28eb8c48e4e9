use vstd::prelude::*;
use crate::ids::UserId;

verus! {

/// An event sent by a client over its live session.
#[derive(Clone, Debug, PartialEq, Eq)]
pub enum ClientEvent {
    Message { to: UserId, text: String, client_id: Option<String> },
    Typing { to: UserId },
}

/// An event pushed by the server to a client.
#[derive(Clone, Debug, PartialEq, Eq)]
pub enum ServerEvent {
    Message {
        from: UserId,
        text: String,
        original: String,
        translated: bool,
        client_id: Option<String>,
    },
    Delivery { to: UserId, status: String, client_id: Option<String> },
    Error { message: String },
}

/// The mathematical value of a `ClientEvent`.
pub enum SpecClientEvent {
    Message { to: UserId, text: Seq<char>, client_id: Option<Seq<char>> },
    Typing { to: UserId },
}

/// The mathematical value of a `ServerEvent`.
pub enum SpecServerEvent {
    Message {
        from: UserId,
        text: Seq<char>,
        original: Seq<char>,
        translated: bool,
        client_id: Option<Seq<char>>,
    },
    Delivery { to: UserId, status: Seq<char>, client_id: Option<Seq<char>> },
    Error { message: Seq<char> },
}

pub open spec fn opt_text(o: Option<String>) -> Option<Seq<char>> {
    match o {
        Some(s) => Some(s@),
        None => None,
    }
}

impl View for ClientEvent {
    type V = SpecClientEvent;

    open spec fn view(&self) -> SpecClientEvent {
        match self {
            ClientEvent::Message { to, text, client_id } => SpecClientEvent::Message {
                to: *to,
                text: text@,
                client_id: opt_text(*client_id),
            },
            ClientEvent::Typing { to } => SpecClientEvent::Typing { to: *to },
        }
    }
}

impl View for ServerEvent {
    type V = SpecServerEvent;

    open spec fn view(&self) -> SpecServerEvent {
        match self {
            ServerEvent::Message { from, text, original, translated, client_id } =>
                SpecServerEvent::Message {
                from: *from,
                text: text@,
                original: original@,
                translated: *translated,
                client_id: opt_text(*client_id),
            },
            ServerEvent::Delivery { to, status, client_id } => SpecServerEvent::Delivery {
                to: *to,
                status: status@,
                client_id: opt_text(*client_id),
            },
            ServerEvent::Error { message } => SpecServerEvent::Error { message: message@ },
        }
    }
}

/// Status of a `Delivery` that confirms a message to its sender.
pub open spec fn status_sent() -> Seq<char> {
    seq!['s', 'e', 'n', 't']
}

/// Status of a `Delivery` that tells a recipient that someone is typing.
pub open spec fn status_typing() -> Seq<char> {
    seq!['t', 'y', 'p', 'i', 'n', 'g']
}

/// Text of the `Error` sent to a sender that has no accepted connection.
pub open spec fn connection_required() -> Seq<char> {
    seq!['c', 'o', 'n', 'n', 'e', 'c', 't', 'i', 'o', 'n', '_', 'r', 'e', 'q', 'u', 'i', 'r', 'e', 'd']
}

pub fn sent_status() -> (r: String)
    ensures
        r@ == status_sent(),
{
    let r = String::from_str("sent");
    proof {
        reveal_strlit("sent");
    }
    r
}

pub fn typing_status() -> (r: String)
    ensures
        r@ == status_typing(),
{
    let r = String::from_str("typing");
    proof {
        reveal_strlit("typing");
    }
    r
}

pub fn connection_required_text() -> (r: String)
    ensures
        r@ == connection_required(),
{
    let r = String::from_str("connection_required");
    proof {
        reveal_strlit("connection_required");
    }
    r
}

pub fn clone_opt_text(o: &Option<String>) -> (r: Option<String>)
    ensures
        opt_text(r) == opt_text(*o),
{
    match o {
        Some(s) => Some(s.clone()),
        None => None,
    }
}

} // verus!
