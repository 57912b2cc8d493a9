use chatcore::client::{poll_queue, ClientState, RecvError, RecvResult};
use chatcore::messages::{ClientMessage, CreateGuild, JoinGuild, ServerMessage};
use chatcore::transport::{TransportEvent, TransportMessage};

fn join_guild(id: u32, name: &str, icon_url: &str) -> ServerMessage {
    ServerMessage::JoinGuild(JoinGuild {
        id,
        name: name.to_string(),
        icon_url: icon_url.to_string(),
    })
}

fn binary_frame(m: &ServerMessage) -> TransportEvent {
    TransportEvent::Message(TransportMessage::Binary(m.clone().encode().unwrap()))
}

#[test]
fn poll_before_open_acknowledgment() {
    let mut state = ClientState::Connecting;
    let mut events: Vec<TransportEvent> = Vec::new();
    let r = poll_queue(&mut state, &mut events);
    assert_eq!(r, RecvResult::Connecting);
    assert_eq!(state, ClientState::Connecting);
}

#[test]
fn opened_then_message_in_one_poll() {
    let m = join_guild(1, "Fresko servr", "http://x");
    let mut state = ClientState::Connecting;
    let mut events = vec![TransportEvent::Opened, binary_frame(&m)];
    let r = poll_queue(&mut state, &mut events);
    assert_eq!(r, RecvResult::Message(m));
    assert_eq!(state, ClientState::Opened);
    assert!(events.is_empty());
}

#[test]
fn garbage_frame_is_decode_error_and_not_fatal() {
    let mut state = ClientState::Opened;
    let mut events = vec![TransportEvent::Message(TransportMessage::Binary(vec![0x9b, 0x2a]))];
    let r = poll_queue(&mut state, &mut events);
    assert_eq!(r, RecvResult::Error(RecvError::Decoding));
    assert_eq!(state, ClientState::Opened);
    assert!(events.is_empty());
}

#[test]
fn outbound_frame_decodes_back() {
    let m = ClientMessage::CreateGuild(CreateGuild { name: "Test".to_string() });
    let frame = m.clone().encode().unwrap();
    assert_eq!(ClientMessage::decode(&frame).unwrap(), m);
}

#[test]
fn closed_is_terminal_and_sticky() {
    let mut state = ClientState::Opened;
    let mut events = vec![TransportEvent::Closed];
    let r = poll_queue(&mut state, &mut events);
    assert_eq!(r, RecvResult::Disconnected);
    assert_eq!(state, ClientState::Closed);

    // a second poll answers without consulting the buffer
    let m = join_guild(2, "ghost", "http://y");
    let mut events = vec![binary_frame(&m)];
    let r = poll_queue(&mut state, &mut events);
    assert_eq!(r, RecvResult::Disconnected);
    assert_eq!(state, ClientState::Closed);
    assert_eq!(events.len(), 1);
}

#[test]
fn errored_is_terminal_and_sticky() {
    let mut state = ClientState::Connecting;
    let mut events = vec![TransportEvent::Error("reset".to_string())];
    let r = poll_queue(&mut state, &mut events);
    assert_eq!(r, RecvResult::Error(RecvError::WsError("reset".to_string())));
    assert_eq!(state, ClientState::WsError("reset".to_string()));

    let mut events = vec![TransportEvent::Opened];
    let r = poll_queue(&mut state, &mut events);
    assert_eq!(r, RecvResult::Error(RecvError::WsError("reset".to_string())));
    assert_eq!(state, ClientState::WsError("reset".to_string()));
    assert_eq!(events.len(), 1);
}

#[test]
fn one_message_per_poll_in_order() {
    let msgs = [
        join_guild(1, "first", "http://a"),
        join_guild(2, "second", "http://b"),
        join_guild(3, "third", "http://c"),
    ];
    let mut state = ClientState::Opened;
    let mut events: Vec<TransportEvent> = msgs.iter().map(binary_frame).collect();
    for (i, m) in msgs.iter().enumerate() {
        let r = poll_queue(&mut state, &mut events);
        assert_eq!(r, RecvResult::Message(m.clone()));
        assert_eq!(state, ClientState::Opened);
        assert_eq!(events.len(), msgs.len() - 1 - i);
    }
    let r = poll_queue(&mut state, &mut events);
    assert_eq!(r, RecvResult::OkNone);
}

#[test]
fn idle_poll_is_a_no_op() {
    let mut state = ClientState::Opened;
    let mut events: Vec<TransportEvent> = Vec::new();
    let r = poll_queue(&mut state, &mut events);
    assert_eq!(r, RecvResult::OkNone);
    assert_eq!(state, ClientState::Opened);
    assert!(events.is_empty());
}

#[test]
fn non_binary_frames_are_discarded() {
    let m = join_guild(4, "after noise", "http://z");
    let mut state = ClientState::Opened;
    let mut events = vec![
        TransportEvent::Message(TransportMessage::Text("hi".to_string())),
        TransportEvent::Message(TransportMessage::Ping(vec![1])),
        TransportEvent::Message(TransportMessage::Pong(vec![2])),
        binary_frame(&m),
    ];
    let r = poll_queue(&mut state, &mut events);
    assert_eq!(r, RecvResult::Message(m));
    assert!(events.is_empty());
}

#[test]
fn error_short_circuits_draining() {
    let m = join_guild(5, "never seen", "http://w");
    let mut state = ClientState::Opened;
    let mut events = vec![TransportEvent::Error("boom".to_string()), binary_frame(&m)];
    let r = poll_queue(&mut state, &mut events);
    assert_eq!(r, RecvResult::Error(RecvError::WsError("boom".to_string())));
    assert_eq!(state, ClientState::WsError("boom".to_string()));
    assert_eq!(events.len(), 1);
}
