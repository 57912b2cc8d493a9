//! The connection: its lifecycle state machine and the non-blocking drain
//! loop through which a caller receives server messages one at a time.
//!
//! The whole behaviour of one poll is captured by the [`poll_post`]
//! predicate over an explicit queue of buffered events; [`poll_queue`] is
//! the drain loop proved against it, and [`Client::recieve`] runs the same
//! steps against the live transport, whose buffer no contract can know.

use vstd::prelude::*;

verus! {

use crate::codec::{client_encodable, client_msg_bytes, parse_server};
use crate::messages::{ClientMessage, ServerMessage};
use crate::transport::{ws_connect, ws_send_binary, ws_try_recv, TransportEvent, TransportMessage};

/// The lifecycle of a connection. It starts `Connecting`; `Closed` and
/// `WsError` are terminal: once reached, the state never changes again.
#[derive(Debug, Clone, PartialEq, Eq)]
pub enum ClientState {
    /// Constructed, but the transport has not yet confirmed the connection.
    Connecting,
    /// The transport confirmed the connection; traffic is legal.
    Opened,
    /// The peer ended the connection normally. Terminal.
    Closed,
    /// The transport reported a failure, with its reason. Terminal.
    WsError(String),
}

/// Why one poll failed to deliver a message.
#[derive(Debug, Clone, PartialEq, Eq)]
pub enum RecvError {
    /// An inbound binary frame was not a valid message encoding. The
    /// connection itself stays usable.
    Decoding,
    /// The transport failed; the connection is dead.
    WsError(String),
}

/// What one poll of the connection produced.
#[derive(Debug, Clone, PartialEq, Eq)]
pub enum RecvResult {
    /// One decoded server message.
    Message(ServerMessage),
    /// Nothing buffered; the connection is open and idle.
    OkNone,
    /// The transport has not confirmed the connection yet.
    Connecting,
    /// The connection is closed; no message will ever arrive again.
    Disconnected,
    /// See [`RecvError`].
    Error(RecvError),
}

/// Whether `s` is a state the connection can never leave.
pub open spec fn is_terminal(s: ClientState) -> bool {
    match s {
        ClientState::Closed => true,
        ClientState::WsError(_) => true,
        _ => false,
    }
}

/// The result owed by a poll that starts in terminal state `s`.
pub open spec fn terminal_result(s: ClientState, r: RecvResult) -> bool {
    match s {
        ClientState::Closed => r == RecvResult::Disconnected,
        ClientState::WsError(e) => r == RecvResult::Error(RecvError::WsError(e)),
        _ => false,
    }
}

/// The result owed by a poll that empties the buffer without news.
pub open spec fn idle_result(s: ClientState, r: RecvResult) -> bool {
    match s {
        ClientState::Connecting => r == RecvResult::Connecting,
        ClientState::Opened => r == RecvResult::OkNone,
        _ => false,
    }
}

/// The result owed for one consumed binary frame with payload `data`: the
/// decoded message if `data` is a canonical encoding, a decode error
/// otherwise.
pub open spec fn frame_result(data: Seq<u8>, r: RecvResult) -> bool {
    match parse_server(data) {
        Ok(p) => r matches RecvResult::Message(m) && (match m {
            ServerMessage::JoinGuild(jg) => jg.id == p.0 && jg.name@ == p.1 && jg.icon_url@
                == p.2,
        }),
        Err(e) => r == RecvResult::Error(RecvError::Decoding),
    }
}

/// The result owed for a consumed event that ends a poll, by the kind of
/// event; `false` for events the drain merely absorbs.
pub open spec fn event_result(ev: TransportEvent, r: RecvResult) -> bool {
    match ev {
        TransportEvent::Message(TransportMessage::Binary(d)) => frame_result(d@, r),
        TransportEvent::Error(e) => r == RecvResult::Error(RecvError::WsError(e)),
        TransportEvent::Closed => r == RecvResult::Disconnected,
        _ => false,
    }
}

/// The full behaviour of one poll: starting in `pre` with `evs` buffered
/// in delivery order, the poll ends in state `post`, leaves `rem`
/// buffered, and returns `r`.
///
/// A terminal start consumes nothing. Otherwise events are popped in
/// order: an opened notification moves the state to `Opened` and the drain
/// goes on; a transport error or closure moves the state to its terminal
/// and ends the poll; a binary frame ends the poll with at most one
/// decoded message, the state unchanged; any other frame is discarded. An
/// emptied buffer reports the idle result of the state reached.
pub open spec fn poll_post(
    pre: ClientState,
    evs: Seq<TransportEvent>,
    post: ClientState,
    rem: Seq<TransportEvent>,
    r: RecvResult,
) -> bool
    decreases evs.len(),
{
    if is_terminal(pre) {
        post == pre && rem == evs && terminal_result(pre, r)
    } else if evs.len() == 0 {
        post == pre && rem == evs && idle_result(pre, r)
    } else {
        match evs[0] {
            TransportEvent::Opened => poll_post(ClientState::Opened, evs.drop_first(), post, rem, r),
            TransportEvent::Error(e) => post == ClientState::WsError(e) && rem == evs.drop_first()
                && r == RecvResult::Error(RecvError::WsError(e)),
            TransportEvent::Closed => post == ClientState::Closed && rem == evs.drop_first() && r
                == RecvResult::Disconnected,
            TransportEvent::Message(tm) => match tm {
                TransportMessage::Binary(data) => post == pre && rem == evs.drop_first()
                    && frame_result(data@, r),
                _ => poll_post(pre, evs.drop_first(), post, rem, r),
            },
        }
    }
}

/// Applies one buffered event to the state. `None` means the drain must
/// go on; `Some` is the poll's result.
pub fn client_step(state: &mut ClientState, event: TransportEvent) -> (r: Option<RecvResult>)
    requires
        !is_terminal(*old(state)),
    ensures
        match event {
            TransportEvent::Opened => *final(state) == ClientState::Opened && r is None,
            TransportEvent::Error(e) => *final(state) == ClientState::WsError(e) && r == Some(
                RecvResult::Error(RecvError::WsError(e)),
            ),
            TransportEvent::Closed => *final(state) == ClientState::Closed && r == Some(
                RecvResult::Disconnected,
            ),
            TransportEvent::Message(tm) => *final(state) == *old(state) && (match tm {
                TransportMessage::Binary(data) => r matches Some(res) && frame_result(data@, res),
                _ => r is None,
            }),
        },
{
    match event {
        TransportEvent::Opened => {
            *state = ClientState::Opened;
            None
        },
        TransportEvent::Error(e) => {
            let reason = e.clone();
            *state = ClientState::WsError(e);
            Some(RecvResult::Error(RecvError::WsError(reason)))
        },
        TransportEvent::Closed => {
            *state = ClientState::Closed;
            Some(RecvResult::Disconnected)
        },
        TransportEvent::Message(tm) => match tm {
            TransportMessage::Binary(data) => match ServerMessage::decode(data.as_slice()) {
                Ok(m) => Some(RecvResult::Message(m)),
                Err(e) => Some(RecvResult::Error(RecvError::Decoding)),
            },
            _ => None,
        },
    }
}

/// The drain loop over an explicit queue of buffered events, the front at
/// index zero: exactly what [`poll_post`] describes.
pub fn poll_queue(state: &mut ClientState, events: &mut Vec<TransportEvent>) -> (r: RecvResult)
    ensures
        poll_post(*old(state), old(events)@, *final(state), final(events)@, r),
{
    match &*state {
        ClientState::Closed => {
            return RecvResult::Disconnected;
        },
        ClientState::WsError(e) => {
            return RecvResult::Error(RecvError::WsError(e.clone()));
        },
        _ => {},
    }
    loop
        invariant
            !is_terminal(*state),
            forall|post: ClientState, rem: Seq<TransportEvent>, r2: RecvResult|
                poll_post(*state, events@, post, rem, r2) ==> poll_post(
                    *old(state),
                    old(events)@,
                    post,
                    rem,
                    r2,
                ),
        decreases events@.len(),
    {
        if events.len() == 0 {
            let r = match &*state {
                ClientState::Connecting => RecvResult::Connecting,
                _ => RecvResult::OkNone,
            };
            proof {
                assert(poll_post(*state, events@, *state, events@, r));
            }
            return r;
        }
        let ghost evs0 = events@;
        let ghost pre_state = *state;
        let ev = events.remove(0);
        let ghost gev = ev;
        proof {
            assert(events@ =~= evs0.drop_first());
            assert(evs0[0] == gev);
        }
        match client_step(state, ev) {
            Some(r) => {
                proof {
                    assert(poll_post(pre_state, evs0, *state, events@, r));
                }
                return r;
            },
            None => {
                proof {
                    assert forall|post: ClientState, rem: Seq<TransportEvent>, r2: RecvResult|
                        poll_post(*state, events@, post, rem, r2) implies poll_post(
                        pre_state,
                        evs0,
                        post,
                        rem,
                        r2,
                    ) by {}
                }
            },
        }
    }
}

/// How a poll may move the state: terminal states never change, and an
/// open connection never falls back to `Connecting`.
pub open spec fn state_progress(pre: ClientState, post: ClientState) -> bool {
    if is_terminal(pre) {
        post == pre
    } else if pre == ClientState::Opened {
        post != ClientState::Connecting
    } else {
        true
    }
}

/// What a poll's result says of the state it left behind.
pub open spec fn result_reflects_state(post: ClientState, r: RecvResult) -> bool {
    match r {
        RecvResult::Connecting => post == ClientState::Connecting,
        RecvResult::OkNone => post == ClientState::Opened,
        RecvResult::Disconnected => post == ClientState::Closed,
        RecvResult::Error(err) => match err {
            RecvError::WsError(e) => post == ClientState::WsError(e),
            RecvError::Decoding => !is_terminal(post),
        },
        RecvResult::Message(m) => !is_terminal(post),
    }
}

/// A live connection: the two halves of the underlying websocket, the
/// lifecycle state, and (in the ghost world) every frame ever sent.
pub struct Client {
    recv: ewebsock::WsReceiver,
    sender: ewebsock::WsSender,
    state: ClientState,
    sent: Ghost<Seq<Seq<u8>>>,
}

impl Client {
    /// The connection's lifecycle state.
    pub closed spec fn state_view(&self) -> ClientState {
        self.state
    }

    /// Every binary frame handed to the transport so far, oldest first.
    pub closed spec fn sent_frames(&self) -> Seq<Seq<u8>> {
        self.sent@
    }

    /// Opens a connection to `url`. On success the connection starts in
    /// `Connecting`, with nothing sent; on failure nothing is created and
    /// the transport's error text is returned.
    pub fn new(url: &str) -> (r: Result<Client, String>)
        ensures
            r matches Ok(c) ==> c.state_view() == ClientState::Connecting && c.sent_frames()
                == Seq::<Seq<u8>>::empty(),
    {
        match ws_connect(url) {
            Ok(p) => {
                let (sender, recv) = p;
                Ok(
                    Client {
                        recv,
                        sender,
                        state: ClientState::Connecting,
                        sent: Ghost(Seq::empty()),
                    },
                )
            },
            Err(e) => Err(e),
        }
    }

    /// A borrow of the current lifecycle state, for callers that must
    /// check it before sending.
    pub fn state(&self) -> (r: &ClientState)
        ensures
            *r == self.state_view(),
    {
        &self.state
    }

    /// One non-blocking poll of the live transport: the drain of
    /// [`poll_post`], run against the transport's own buffer. What the
    /// buffer holds is the network's to choose, so the contract holds for
    /// every delivery: the call behaves as [`poll_post`] on the events the
    /// transport handed over, nothing is sent, terminal states are sticky,
    /// the state only moves forward, and the result tells the state
    /// reached.
    pub fn recieve(&mut self) -> (r: RecvResult)
        ensures
            exists|evs: Seq<TransportEvent>|
                poll_post(
                    old(self).state_view(),
                    evs,
                    final(self).state_view(),
                    Seq::<TransportEvent>::empty(),
                    r,
                ),
            final(self).sent_frames() == old(self).sent_frames(),
            state_progress(old(self).state_view(), final(self).state_view()),
            is_terminal(old(self).state_view()) ==> terminal_result(old(self).state_view(), r),
            result_reflects_state(final(self).state_view(), r),
    {
        match &self.state {
            ClientState::Closed => {
                proof {
                    assert(poll_post(
                        self.state,
                        Seq::<TransportEvent>::empty(),
                        self.state,
                        Seq::<TransportEvent>::empty(),
                        RecvResult::Disconnected,
                    ));
                }
                return RecvResult::Disconnected;
            },
            ClientState::WsError(e) => {
                let r = RecvResult::Error(RecvError::WsError(e.clone()));
                proof {
                    assert(poll_post(
                        self.state,
                        Seq::<TransportEvent>::empty(),
                        self.state,
                        Seq::<TransportEvent>::empty(),
                        r,
                    ));
                }
                return r;
            },
            _ => {},
        }
        // the events consumed so far, to witness the poll_post clause
        let ghost mut consumed: Seq<TransportEvent> = Seq::empty();
        // a live transport can enqueue events forever, so the drain carries
        // a bound far beyond any real buffer to stay provably terminating
        let mut fuel: u64 = u64::MAX;
        while fuel > 0
            invariant
                !is_terminal(self.state),
                state_progress(old(self).state_view(), self.state_view()),
                self.sent == old(self).sent,
                forall|tail: Seq<TransportEvent>, post: ClientState, rem: Seq<
                    TransportEvent,
                >, r2: RecvResult|
                    poll_post(self.state, tail, post, rem, r2) ==> poll_post(
                        old(self).state_view(),
                        consumed + tail,
                        post,
                        rem,
                        r2,
                    ),
            decreases fuel,
        {
            let next = ws_try_recv(&self.recv);
            match next {
                None => {
                    break ;
                },
                Some(ev) => {
                    let ghost gev = ev;
                    let ghost pre_state = self.state;
                    let ghost consumed0 = consumed;
                    proof {
                        consumed = consumed + seq![gev];
                    }
                    match client_step(&mut self.state, ev) {
                        Some(r) => {
                            proof {
                                assert(seq![gev].drop_first() =~= Seq::<TransportEvent>::empty());
                                assert(poll_post(
                                    pre_state,
                                    seq![gev],
                                    self.state,
                                    Seq::<TransportEvent>::empty(),
                                    r,
                                ));
                                assert(consumed0 + seq![gev] =~= consumed);
                                assert(poll_post(
                                    old(self).state_view(),
                                    consumed,
                                    self.state,
                                    Seq::<TransportEvent>::empty(),
                                    r,
                                ));
                            }
                            return r;
                        },
                        None => {
                            proof {
                                assert forall|tail: Seq<TransportEvent>, post: ClientState, rem:
                                    Seq<TransportEvent>, r2: RecvResult|
                                    poll_post(self.state, tail, post, rem, r2) implies poll_post(
                                    old(self).state_view(),
                                    consumed + tail,
                                    post,
                                    rem,
                                    r2,
                                ) by {
                                    assert((seq![gev] + tail).drop_first() =~= tail);
                                    assert(poll_post(pre_state, seq![gev] + tail, post, rem, r2));
                                    assert(consumed0 + (seq![gev] + tail) =~= consumed + tail);
                                }
                            }
                        },
                    }
                },
            }
            fuel = fuel - 1;
        }
        let r = match &self.state {
            ClientState::Connecting => RecvResult::Connecting,
            _ => RecvResult::OkNone,
        };
        proof {
            assert(poll_post(
                self.state,
                Seq::<TransportEvent>::empty(),
                self.state,
                Seq::<TransportEvent>::empty(),
                r,
            ));
            assert(consumed + Seq::<TransportEvent>::empty() =~= consumed);
            assert(poll_post(
                old(self).state_view(),
                consumed,
                self.state,
                Seq::<TransportEvent>::empty(),
                r,
            ));
        }
        r
    }

    /// Encodes `msg` and enqueues it as one binary frame on the
    /// transport's outbound queue, fire-and-forget; frames go out in call
    /// order. The state is untouched: whether the connection is in a state
    /// where sending is meaningful is the caller's to check first.
    pub fn send(&mut self, msg: ClientMessage)
        requires
            client_encodable(msg),
        ensures
            final(self).state_view() == old(self).state_view(),
            final(self).sent_frames() == old(self).sent_frames().push(client_msg_bytes(msg)),
    {
        let ghost frame = client_msg_bytes(msg);
        match msg.encode() {
            Ok(bytes) => {
                proof {
                    assert(bytes@ == frame);
                }
                self.sent = Ghost(self.sent@.push(frame));
                ws_send_binary(&mut self.sender, bytes);
            },
            Err(e) => {
                proof {
                    assert(false);
                }
            },
        }
    }
}

/// Terminal states are sticky: a poll that starts in `Closed` or
/// `WsError` consumes nothing, changes nothing, and reports the same
/// terminal status every time.
pub proof fn lemma_terminal_sticky(
    pre: ClientState,
    evs: Seq<TransportEvent>,
    post: ClientState,
    rem: Seq<TransportEvent>,
    r: RecvResult,
)
    requires
        is_terminal(pre),
        poll_post(pre, evs, post, rem, r),
    ensures
        post == pre,
        rem == evs,
        terminal_result(pre, r),
{
}

/// With nothing buffered and the connection open, a poll is a no-op that
/// reports "nothing ready".
pub proof fn lemma_idle_poll(post: ClientState, rem: Seq<TransportEvent>, r: RecvResult)
    requires
        poll_post(ClientState::Opened, Seq::<TransportEvent>::empty(), post, rem, r),
    ensures
        post == ClientState::Opened,
        rem == Seq::<TransportEvent>::empty(),
        r == RecvResult::OkNone,
{
}

/// Whether every buffered event is a binary frame.
pub open spec fn all_binary(evs: Seq<TransportEvent>) -> bool {
    forall|i: int|
        0 <= i < evs.len() ==> (#[trigger] evs[i]) matches TransportEvent::Message(
            TransportMessage::Binary(_),
        )
}

/// With a buffer of binary frames and the connection open, one poll
/// consumes exactly the first frame, answers for it alone, and leaves the
/// rest untouched and in order.
pub proof fn lemma_one_frame_per_poll(
    evs: Seq<TransportEvent>,
    post: ClientState,
    rem: Seq<TransportEvent>,
    r: RecvResult,
)
    requires
        all_binary(evs),
        evs.len() > 0,
        poll_post(ClientState::Opened, evs, post, rem, r),
    ensures
        post == ClientState::Opened,
        rem == evs.drop_first(),
        event_result(evs[0], r),
{
    assert(evs[0] matches TransportEvent::Message(TransportMessage::Binary(_)));
}

/// With a buffer of `N` binary frames and the connection open, repeated
/// polls return the frames one per call in their original order: the poll
/// that finds the first `j` frames consumed answers for frame `j` alone
/// and leaves frames `j + 1` onward.
pub proof fn lemma_polls_in_order(
    evs: Seq<TransportEvent>,
    j: int,
    post: ClientState,
    rem: Seq<TransportEvent>,
    r: RecvResult,
)
    requires
        all_binary(evs),
        0 <= j < evs.len(),
        poll_post(ClientState::Opened, evs.skip(j), post, rem, r),
    ensures
        post == ClientState::Opened,
        rem == evs.skip(j + 1),
        event_result(evs[j], r),
{
    let tail = evs.skip(j);
    assert(tail[0] == evs[j]);
    assert forall|i: int| 0 <= i < tail.len() implies (#[trigger] tail[i])
        matches TransportEvent::Message(TransportMessage::Binary(_)) by {
        assert(tail[i] == evs[j + i]);
    }
    lemma_one_frame_per_poll(tail, post, rem, r);
    assert(tail.drop_first() =~= evs.skip(j + 1));
}

} // verus!
