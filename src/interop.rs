use vstd::prelude::*;
use std::sync::mpsc::{Receiver, Sender};

verus! {

/// The state that the backend shares with the front end.
#[derive(Debug, Clone, Default)]
pub struct RustideState {
    pub name: String,
    pub age: u32,
    pub files: Vec<String>,
    pub selection: usize,
}

#[derive(Debug)]
pub enum RRequest {
    Kill,
    ImAlive,
    Debug(String),
    State(RustideState),
}

#[derive(Debug)]
pub enum RResponse {
    /// The request was taken.
    Ack,
}

/// What travels between the front end and the backend.
#[derive(Debug)]
pub enum RustideMessage {
    Request(RRequest),
    Response(RResponse),
}

impl From<RResponse> for RustideMessage {
    fn from(v: RResponse) -> (r: RustideMessage)
        ensures
            r == RustideMessage::Response(v),
    {
        RustideMessage::Response(v)
    }
}

impl vstd::std_specs::convert::FromSpecImpl<RResponse> for RustideMessage {
    open spec fn obeys_from_spec() -> bool {
        true
    }

    open spec fn from_spec(v: RResponse) -> RustideMessage {
        RustideMessage::Response(v)
    }
}

impl From<RRequest> for RustideMessage {
    fn from(v: RRequest) -> (r: RustideMessage)
        ensures
            r == RustideMessage::Request(v),
    {
        RustideMessage::Request(v)
    }
}

impl vstd::std_specs::convert::FromSpecImpl<RRequest> for RustideMessage {
    open spec fn obeys_from_spec() -> bool {
        true
    }

    open spec fn from_spec(v: RRequest) -> RustideMessage {
        RustideMessage::Request(v)
    }
}

impl RustideMessage {
    /// Returns `true` if the message is a `Response`.
    pub fn is_response(&self) -> (r: bool)
        ensures
            r == (*self is Response),
    {
        matches!(self, Self::Response(..))
    }

    /// Returns `true` if the message is a `Request`.
    pub fn is_request(&self) -> (r: bool)
        ensures
            r == (*self is Request),
    {
        matches!(self, Self::Request(..))
    }

    /// The response that the message carries, if it is one.
    pub fn as_response(&self) -> (r: Option<&RResponse>)
        ensures
            r is Some <==> *self is Response,
            r is Some ==> *r->Some_0 == self->Response_0,
    {
        if let Self::Response(v) = self {
            Some(v)
        } else {
            None
        }
    }

    /// The request that the message carries, if it is one.
    pub fn as_request(&self) -> (r: Option<&RRequest>)
        ensures
            r is Some <==> *self is Request,
            r is Some ==> *r->Some_0 == self->Request_0,
    {
        if let Self::Request(v) = self {
            Some(v)
        } else {
            None
        }
    }
}

#[verifier::external_type_specification]
#[verifier::external_body]
#[verifier::reject_recursive_types(T)]
pub struct ExSender<T>(Sender<T>);

#[verifier::external_type_specification]
#[verifier::external_body]
#[verifier::reject_recursive_types(T)]
pub struct ExReceiver<T>(Receiver<T>);

/// One end of a link: where it sends, and where it receives.
pub type Endpoint = (Sender<RustideMessage>, Receiver<RustideMessage>);

/// Relies on std::sync::mpsc::channel: a sender and the receiver it feeds.
#[verifier::external_body]
fn channel() -> (r: (Sender<RustideMessage>, Receiver<RustideMessage>)) {
    std::sync::mpsc::channel()
}

/// Relies on std::sync::mpsc::Receiver::try_recv: a message if one is waiting.
/// What arrives depends on other threads, so nothing is promised of it.
#[verifier::external_body]
pub(crate) fn try_receive(rx: &Receiver<RustideMessage>) -> (r: Option<RustideMessage>) {
    rx.try_recv().ok()
}

/// Relies on std::sync::mpsc::Sender::send: `true` when the receiving end was
/// still there to take the message.
#[verifier::external_body]
fn send_on(tx: &Sender<RustideMessage>, m: RustideMessage) -> (r: bool) {
    tx.send(m).is_ok()
}

/// A pair of channels.
pub struct Link {
    e1: Endpoint,
    e2: Endpoint,
}

impl Link {
    pub fn new() -> (r: Link) {
        Link { e1: channel(), e2: channel() }
    }
}

/// Something a message can be taken from.
pub trait Listen {
    fn listen(self) -> Option<RustideMessage>;
}

/// Something a message can be handed to.
pub trait Send {
    fn send<M: Into<RustideMessage>>(&mut self, t: M) -> Option<()>;
}

impl Listen for Endpoint {
    fn listen(self) -> (r: Option<RustideMessage>) {
        try_receive(&self.1)
    }
}

impl Send for Endpoint {
    fn send<M: Into<RustideMessage>>(&mut self, t: M) -> (r: Option<()>) {
        let m: RustideMessage = t.into();
        if send_on(&self.0, m) {
            Some(())
        } else {
            None
        }
    }
}

} // verus!
