use chatcore::codec::DecodeError;
use chatcore::messages::{ClientMessage, CreateGuild, JoinGuild, ServerMessage};

fn client_msg(name: &str) -> ClientMessage {
    ClientMessage::CreateGuild(CreateGuild { name: name.to_string() })
}

fn server_msg(id: u32, name: &str, icon_url: &str) -> ServerMessage {
    ServerMessage::JoinGuild(JoinGuild {
        id,
        name: name.to_string(),
        icon_url: icon_url.to_string(),
    })
}

#[test]
fn client_round_trip() {
    let m = client_msg("Test");
    let bytes = m.clone().encode().unwrap();
    let back = ClientMessage::decode(&bytes).unwrap();
    assert_eq!(back, m);
}

#[test]
fn client_round_trip_empty_name() {
    let m = client_msg("");
    let bytes = m.clone().encode().unwrap();
    assert_eq!(ClientMessage::decode(&bytes).unwrap(), m);
}

#[test]
fn client_round_trip_unicode() {
    let m = client_msg("Fresk\u{f6} serv\u{e9}r \u{1f600}");
    let bytes = m.clone().encode().unwrap();
    assert_eq!(ClientMessage::decode(&bytes).unwrap(), m);
}

#[test]
fn server_round_trip() {
    let m = server_msg(1, "Fresko servr", "http://x");
    let bytes = m.clone().encode().unwrap();
    assert_eq!(ServerMessage::decode(&bytes).unwrap(), m);
}

#[test]
fn server_round_trip_unicode() {
    let m = server_msg(u32::MAX, "\u{3042}\u{3044}\u{3046}", "");
    let bytes = m.clone().encode().unwrap();
    assert_eq!(ServerMessage::decode(&bytes).unwrap(), m);
}

#[test]
fn client_exact_bytes() {
    let bytes = client_msg("A").encode().unwrap();
    assert_eq!(bytes, vec![0x00, 0x01, 0x00, 0x00, 0x00, 0x41]);
}

#[test]
fn server_exact_bytes() {
    let bytes = server_msg(7, "a", "b").encode().unwrap();
    assert_eq!(
        bytes,
        vec![
            0x00, // tag
            0x07, 0x00, 0x00, 0x00, // id
            0x01, 0x00, 0x00, 0x00, 0x61, // name
            0x01, 0x00, 0x00, 0x00, 0x62, // icon url
        ]
    );
}

#[test]
fn utf8_length_is_byte_length() {
    // a two-byte character: the length field counts bytes, not characters
    let bytes = client_msg("\u{e9}").encode().unwrap();
    assert_eq!(bytes, vec![0x00, 0x02, 0x00, 0x00, 0x00, 0xc3, 0xa9]);
}

#[test]
fn decode_empty_input() {
    assert_eq!(ClientMessage::decode(&[]), Err(DecodeError::Truncated));
    assert_eq!(ServerMessage::decode(&[]), Err(DecodeError::Truncated));
}

#[test]
fn decode_unknown_tag() {
    assert_eq!(ClientMessage::decode(&[0xff]), Err(DecodeError::UnknownTag));
    assert_eq!(ServerMessage::decode(&[0x01, 0x00]), Err(DecodeError::UnknownTag));
}

#[test]
fn decode_two_garbage_bytes() {
    assert_eq!(ServerMessage::decode(&[0x00, 0x2a]), Err(DecodeError::Truncated));
    assert_eq!(ServerMessage::decode(&[0x9b, 0x2a]), Err(DecodeError::UnknownTag));
}

#[test]
fn decode_every_truncation() {
    let client_bytes = client_msg("Test").encode().unwrap();
    for n in 0..client_bytes.len() {
        assert_eq!(
            ClientMessage::decode(&client_bytes[..n]),
            Err(DecodeError::Truncated),
            "client prefix of {} bytes",
            n
        );
    }
    let server_bytes = server_msg(1, "Fresko servr", "http://x").encode().unwrap();
    for n in 0..server_bytes.len() {
        assert_eq!(
            ServerMessage::decode(&server_bytes[..n]),
            Err(DecodeError::Truncated),
            "server prefix of {} bytes",
            n
        );
    }
}

#[test]
fn decode_trailing_bytes() {
    let mut bytes = client_msg("Test").encode().unwrap();
    bytes.push(0x00);
    assert_eq!(ClientMessage::decode(&bytes), Err(DecodeError::TrailingBytes));
    let mut bytes = server_msg(1, "a", "b").encode().unwrap();
    bytes.push(0x01);
    assert_eq!(ServerMessage::decode(&bytes), Err(DecodeError::TrailingBytes));
}

#[test]
fn decode_invalid_utf8() {
    // tag, length 2, then two bytes that are no UTF-8 sequence
    let bytes = vec![0x00, 0x02, 0x00, 0x00, 0x00, 0xff, 0xfe];
    assert_eq!(ClientMessage::decode(&bytes), Err(DecodeError::InvalidUtf8));
}

#[test]
fn decode_length_field_beyond_input() {
    // tag, then a length field promising far more bytes than follow
    let bytes = vec![0x00, 0xff, 0xff, 0xff, 0x7f, 0x41];
    assert_eq!(ClientMessage::decode(&bytes), Err(DecodeError::Truncated));
}
