use chatcore::client::{Client, ClientState, RecvError, RecvResult};
use chatcore::messages::{ClientMessage, CreateGuild};

#[test]
fn fresh_connection_polls_without_blocking() {
    // Nothing listens on this port: the transport reports the refusal as a
    // buffered event, never by stalling the poll. Which poll sees it
    // depends on timing, so every poll outcome must be one the contract
    // allows for a connection that can never open.
    let mut client = Client::new("ws://127.0.0.1:9/ws").expect("spawning the transport worker");
    assert!(matches!(client.state(), ClientState::Connecting));
    client.send(ClientMessage::CreateGuild(CreateGuild { name: "Test".to_string() }));
    for _ in 0..200_000 {
        match client.recieve() {
            RecvResult::Connecting => {
                assert!(matches!(client.state(), ClientState::Connecting));
            }
            RecvResult::Error(RecvError::WsError(_)) => {
                assert!(matches!(client.state(), ClientState::WsError(_)));
                return;
            }
            RecvResult::Disconnected => {
                assert!(matches!(client.state(), ClientState::Closed));
                return;
            }
            other => panic!("unexpected poll result: {:?}", other),
        }
    }
}
