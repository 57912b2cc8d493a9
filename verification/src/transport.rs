//! The transport boundary: the library's own mirror of the websocket
//! crate's event types, and trusted wrappers around the three calls the
//! connection makes into it.

use vstd::prelude::*;

verus! {

/// One frame delivered by the transport.
#[derive(Debug, Clone, PartialEq, Eq)]
pub enum TransportMessage {
    /// A binary frame: the only kind that carries protocol messages.
    Binary(Vec<u8>),
    /// A text frame, outside the binary protocol.
    Text(String),
    /// An incoming frame of a kind the transport could not classify.
    Unknown(String),
    /// A ping control frame.
    Ping(Vec<u8>),
    /// A pong control frame.
    Pong(Vec<u8>),
}

/// One buffered transport event, observed in delivery order.
#[derive(Debug, Clone, PartialEq, Eq)]
pub enum TransportEvent {
    /// The connection has been established.
    Opened,
    /// A frame arrived.
    Message(TransportMessage),
    /// The transport failed; the reason is the transport's own wording.
    Error(String),
    /// The connection was closed by the peer.
    Closed,
}

#[verifier::external_type_specification]
#[verifier::external_body]
pub struct ExWsReceiver(ewebsock::WsReceiver);

#[verifier::external_type_specification]
#[verifier::external_body]
pub struct ExWsSender(ewebsock::WsSender);

/// Relies on `ewebsock::connect`: on success it hands back the live sender
/// and receiver halves of a fresh connection, on failure the transport's
/// own error text. Nothing further is promised: whether it succeeds
/// depends on the machine.
#[verifier::external_body]
pub(crate) fn ws_connect(url: &str) -> (r: Result<
    (ewebsock::WsSender, ewebsock::WsReceiver),
    String,
>) {
    ewebsock::connect(url, ewebsock::Options::default())
}

/// Relies on `ewebsock::WsReceiver::try_recv`: without blocking, it pops
/// the next buffered event, if any, in delivery order. What arrives
/// depends on the network, so nothing is promised of the value.
#[verifier::external_body]
pub(crate) fn ws_try_recv(recv: &ewebsock::WsReceiver) -> (r: Option<TransportEvent>) {
    recv.try_recv().map(|event| match event {
        ewebsock::WsEvent::Opened => TransportEvent::Opened,
        ewebsock::WsEvent::Error(e) => TransportEvent::Error(e),
        ewebsock::WsEvent::Closed => TransportEvent::Closed,
        ewebsock::WsEvent::Message(m) => TransportEvent::Message(match m {
            ewebsock::WsMessage::Binary(b) => TransportMessage::Binary(b),
            ewebsock::WsMessage::Text(t) => TransportMessage::Text(t),
            ewebsock::WsMessage::Unknown(u) => TransportMessage::Unknown(u),
            ewebsock::WsMessage::Ping(p) => TransportMessage::Ping(p),
            ewebsock::WsMessage::Pong(p) => TransportMessage::Pong(p),
        }),
    })
}

/// Relies on `ewebsock::WsSender::send`: it enqueues one binary frame on
/// the transport's outbound queue, fire-and-forget.
#[verifier::external_body]
pub(crate) fn ws_send_binary(sender: &mut ewebsock::WsSender, data: Vec<u8>) {
    sender.send(ewebsock::WsMessage::Binary(data));
}

} // verus!
