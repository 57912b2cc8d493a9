//! The wire codec: a deterministic, tag-prefixed binary encoding for the
//! message schema.
//!
//! Layout of an encoded message:
//! - one tag byte identifying the variant (each direction has its own closed
//!   set of tags, starting at zero, and new variants may only be appended);
//! - the variant's fields in order, where a `u32` is four little-endian
//!   bytes and a string is a `u32` byte length followed by its UTF-8 bytes.
//!
//! Decoding consumes the whole input: a truncated input, an unknown tag,
//! bytes that are not valid UTF-8, and bytes left over after the payload are
//! each a distinct [`DecodeError`]. Encoding fails only when a string's
//! UTF-8 form does not fit the four-byte length field.

use vstd::prelude::*;

verus! {

use vstd::utf8::{encode_utf8, decode_utf8, valid_utf8, encode_utf8_decode_utf8};
use crate::messages::{ClientMessage, CreateGuild, JoinGuild, ServerMessage};

/// Why encoding a message failed.
#[derive(Debug, Clone, Copy, PartialEq, Eq)]
pub enum EncodeError {
    /// A string's UTF-8 form is longer than the length field can carry.
    StringTooLong,
}

/// Why decoding a byte sequence failed.
#[derive(Debug, Clone, Copy, PartialEq, Eq)]
pub enum DecodeError {
    /// The input ended before the payload was complete.
    Truncated,
    /// The leading tag byte names no known variant.
    UnknownTag,
    /// A string field's bytes are not valid UTF-8.
    InvalidUtf8,
    /// Bytes remained after a complete payload.
    TrailingBytes,
}

/// The four little-endian bytes of `n`.
pub open spec fn u32_le(n: u32) -> Seq<u8> {
    seq![
        (n & 0xff) as u8,
        ((n >> 8) & 0xff) as u8,
        ((n >> 16) & 0xff) as u8,
        ((n >> 24) & 0xff) as u8,
    ]
}

/// The `u32` with the given little-endian bytes.
pub open spec fn u32_of_le(b0: u8, b1: u8, b2: u8, b3: u8) -> u32 {
    (b0 as u32) | ((b1 as u32) << 8) | ((b2 as u32) << 16) | ((b3 as u32) << 24)
}

pub proof fn lemma_u32_le_roundtrip(n: u32)
    ensures
        u32_of_le(u32_le(n)[0], u32_le(n)[1], u32_le(n)[2], u32_le(n)[3]) == n,
{
    assert(((n & 0xff) as u8 as u32) | (((n >> 8) & 0xff) as u8 as u32) << 8
        | (((n >> 16) & 0xff) as u8 as u32) << 16 | (((n >> 24) & 0xff) as u8 as u32) << 24
        == n) by (bit_vector);
}

pub proof fn lemma_u32_of_le_roundtrip(b0: u8, b1: u8, b2: u8, b3: u8)
    ensures
        u32_le(u32_of_le(b0, b1, b2, b3)) == seq![b0, b1, b2, b3],
{
    assert((((b0 as u32) | ((b1 as u32) << 8) | ((b2 as u32) << 16) | ((b3 as u32) << 24)) & 0xff)
        as u8 == b0) by (bit_vector);
    assert(((((b0 as u32) | ((b1 as u32) << 8) | ((b2 as u32) << 16) | ((b3 as u32) << 24)) >> 8)
        & 0xff) as u8 == b1) by (bit_vector);
    assert(((((b0 as u32) | ((b1 as u32) << 8) | ((b2 as u32) << 16) | ((b3 as u32) << 24)) >> 16)
        & 0xff) as u8 == b2) by (bit_vector);
    assert(((((b0 as u32) | ((b1 as u32) << 8) | ((b2 as u32) << 16) | ((b3 as u32) << 24)) >> 24)
        & 0xff) as u8 == b3) by (bit_vector);
    assert(u32_le(u32_of_le(b0, b1, b2, b3)) =~= seq![b0, b1, b2, b3]);
}

/// Whether a string's UTF-8 form fits the four-byte length field.
pub open spec fn str_fits(s: Seq<char>) -> bool {
    encode_utf8(s).len() <= u32::MAX
}

/// A length-prefixed string: four little-endian length bytes, then the
/// string's UTF-8 bytes.
pub open spec fn lp_str(s: Seq<char>) -> Seq<u8>
    recommends
        str_fits(s),
{
    u32_le(encode_utf8(s).len() as u32) + encode_utf8(s)
}

/// The canonical encoding of a client message.
pub open spec fn client_msg_bytes(m: ClientMessage) -> Seq<u8>
    recommends
        client_encodable(m),
{
    match m {
        ClientMessage::CreateGuild(cg) => seq![0u8] + lp_str(cg.name@),
    }
}

/// Whether a client message can be encoded at all.
pub open spec fn client_encodable(m: ClientMessage) -> bool {
    match m {
        ClientMessage::CreateGuild(cg) => str_fits(cg.name@),
    }
}

/// The canonical encoding of a server message.
pub open spec fn server_msg_bytes(m: ServerMessage) -> Seq<u8>
    recommends
        server_encodable(m),
{
    match m {
        ServerMessage::JoinGuild(jg) => seq![0u8] + u32_le(jg.id) + lp_str(jg.name@) + lp_str(
            jg.icon_url@,
        ),
    }
}

/// Whether a server message can be encoded at all.
pub open spec fn server_encodable(m: ServerMessage) -> bool {
    match m {
        ServerMessage::JoinGuild(jg) => str_fits(jg.name@) && str_fits(jg.icon_url@),
    }
}

/// The `u32` whose little-endian bytes sit at offset `i`.
pub open spec fn parse_u32(b: Seq<u8>, i: int) -> u32
    recommends
        0 <= i,
        i + 4 <= b.len(),
{
    u32_of_le(b[i], b[i + 1], b[i + 2], b[i + 3])
}

/// Parses a length-prefixed string at offset `i`; on success yields the
/// characters and the offset just past the string.
pub open spec fn parse_lp_str(b: Seq<u8>, i: int) -> Result<(Seq<char>, int), DecodeError>
    recommends
        0 <= i <= b.len(),
{
    if i + 4 > b.len() {
        Err(DecodeError::Truncated)
    } else {
        let n = parse_u32(b, i) as int;
        if i + 4 + n > b.len() {
            Err(DecodeError::Truncated)
        } else {
            let bytes = b.subrange(i + 4, i + 4 + n);
            if valid_utf8(bytes) {
                Ok((decode_utf8(bytes), i + 4 + n))
            } else {
                Err(DecodeError::InvalidUtf8)
            }
        }
    }
}

/// Parses a whole client message: on success yields the name carried by the
/// one client variant.
pub open spec fn parse_client(b: Seq<u8>) -> Result<Seq<char>, DecodeError> {
    if b.len() < 1 {
        Err(DecodeError::Truncated)
    } else if b[0] != 0u8 {
        Err(DecodeError::UnknownTag)
    } else {
        match parse_lp_str(b, 1) {
            Err(e) => Err(e),
            Ok((s, j)) => if j == b.len() {
                Ok(s)
            } else {
                Err(DecodeError::TrailingBytes)
            },
        }
    }
}

/// Parses a whole server message: on success yields the id, name and icon
/// URL carried by the one server variant.
pub open spec fn parse_server(b: Seq<u8>) -> Result<(u32, Seq<char>, Seq<char>), DecodeError> {
    if b.len() < 1 {
        Err(DecodeError::Truncated)
    } else if b[0] != 0u8 {
        Err(DecodeError::UnknownTag)
    } else if b.len() < 5 {
        Err(DecodeError::Truncated)
    } else {
        let id = parse_u32(b, 1);
        match parse_lp_str(b, 5) {
            Err(e) => Err(e),
            Ok((name, j)) => match parse_lp_str(b, j) {
                Err(e) => Err(e),
                Ok((icon, k)) => if k == b.len() {
                    Ok((id, name, icon))
                } else {
                    Err(DecodeError::TrailingBytes)
                },
            },
        }
    }
}

/// Relies on `String::from_utf8`: it returns `Ok` exactly when the bytes
/// are valid UTF-8, and the returned string is the one whose UTF-8 bytes
/// are the input.
#[verifier::external_body]
fn string_from_utf8(bytes: Vec<u8>) -> (r: Option<String>)
    ensures
        r is Some <==> valid_utf8(bytes@),
        r matches Some(s) ==> encode_utf8(s@) == bytes@,
{
    String::from_utf8(bytes).ok()
}

fn push_u32_le(out: &mut Vec<u8>, n: u32)
    ensures
        final(out)@ == old(out)@ + u32_le(n),
{
    proof {
        assert(n & 0xff < 256 && (n >> 8) & 0xff < 256 && (n >> 16) & 0xff < 256 && (n >> 24)
            & 0xff < 256) by (bit_vector);
    }
    out.push((n & 0xff) as u8);
    out.push(((n >> 8) & 0xff) as u8);
    out.push(((n >> 16) & 0xff) as u8);
    out.push(((n >> 24) & 0xff) as u8);
    proof {
        assert(out@ =~= old(out)@ + u32_le(n));
    }
}

fn push_lp_str(out: &mut Vec<u8>, s: &str) -> (r: Result<(), EncodeError>)
    ensures
        match r {
            Ok(()) => str_fits(s@) && final(out)@ == old(out)@ + lp_str(s@),
            Err(e) => e == EncodeError::StringTooLong && !str_fits(s@) && final(out)@ == old(
                out,
            )@,
        },
{
    let bytes: &[u8] = s.as_bytes();
    let n: usize = bytes.len();
    if n > u32::MAX as usize {
        return Err(EncodeError::StringTooLong);
    }
    push_u32_le(out, n as u32);
    let ghost mid = out@;
    let mut k: usize = 0;
    while k < n
        invariant
            bytes@ == encode_utf8(s@),
            n == bytes@.len(),
            k <= n,
            out@ == mid + bytes@.subrange(0, k as int),
            mid == old(out)@ + u32_le(n as u32),
        decreases n - k,
    {
        let b: u8 = bytes[k];
        out.push(b);
        k = k + 1;
        proof {
            assert(out@ =~= mid + bytes@.subrange(0, k as int));
        }
    }
    proof {
        assert(bytes@.subrange(0, n as int) =~= bytes@);
        assert(out@ =~= old(out)@ + lp_str(s@));
    }
    Ok(())
}

fn read_u32_le(data: &[u8], i: usize) -> (n: u32)
    requires
        i + 4 <= data@.len(),
    ensures
        n == parse_u32(data@, i as int),
{
    (data[i] as u32) | ((data[i + 1] as u32) << 8) | ((data[i + 2] as u32) << 16) | ((data[i + 3]
        as u32) << 24)
}

fn read_lp_str(data: &[u8], i: usize) -> (r: Result<(String, usize), DecodeError>)
    requires
        i <= data@.len(),
    ensures
        match r {
            Ok(p) => ({
                &&& parse_lp_str(data@, i as int) == Ok::<(Seq<char>, int), DecodeError>(
                    (p.0@, p.1 as int),
                )
                &&& i + 4 <= p.1 <= data@.len()
            }),
            Err(e) => parse_lp_str(data@, i as int) == Err::<(Seq<char>, int), DecodeError>(e),
        },
{
    if data.len() - i < 4 {
        return Err(DecodeError::Truncated);
    }
    let n32: u32 = read_u32_le(data, i);
    let n: usize = n32 as usize;
    let rem: usize = data.len() - i - 4;
    if n > rem {
        return Err(DecodeError::Truncated);
    }
    let mut bytes: Vec<u8> = Vec::new();
    proof {
        assert(data@.subrange(i as int + 4, i as int + 4) =~= Seq::<u8>::empty());
    }
    let mut k: usize = 0;
    while k < n
        invariant
            i + 4 + n <= data@.len() <= usize::MAX,
            k <= n,
            bytes@ == data@.subrange(i as int + 4, i as int + 4 + k as int),
        decreases n - k,
    {
        let b: u8 = data[i + 4 + k];
        bytes.push(b);
        k = k + 1;
        proof {
            assert(bytes@ =~= data@.subrange(i as int + 4, i as int + 4 + k as int));
        }
    }
    match string_from_utf8(bytes) {
        Some(s) => {
            proof {
                encode_utf8_decode_utf8(s@);
            }
            Ok((s, i + 4 + n))
        },
        None => Err(DecodeError::InvalidUtf8),
    }
}

impl ClientMessage {
    /// Encodes the message into its canonical wire bytes.
    pub fn encode(self) -> (r: Result<Vec<u8>, EncodeError>)
        ensures
            match r {
                Ok(bytes) => client_encodable(self) && bytes@ == client_msg_bytes(self),
                Err(e) => e == EncodeError::StringTooLong && !client_encodable(self),
            },
    {
        match self {
            ClientMessage::CreateGuild(cg) => {
                let mut out: Vec<u8> = Vec::new();
                out.push(0u8);
                match push_lp_str(&mut out, cg.name.as_str()) {
                    Ok(()) => {
                        proof {
                            assert(out@ =~= seq![0u8] + lp_str(cg.name@));
                        }
                        Ok(out)
                    },
                    Err(e) => Err(e),
                }
            },
        }
    }

    /// Decodes wire bytes back into a message, failing on any input that is
    /// not exactly a canonical encoding.
    pub fn decode(data: &[u8]) -> (r: Result<Self, DecodeError>)
        ensures
            match r {
                Ok(m) => m matches ClientMessage::CreateGuild(cg) && parse_client(data@)
                    == Ok::<Seq<char>, DecodeError>(cg.name@),
                Err(e) => parse_client(data@) == Err::<Seq<char>, DecodeError>(e),
            },
    {
        if data.len() < 1 {
            return Err(DecodeError::Truncated);
        }
        let tag: u8 = data[0];
        if tag != 0 {
            return Err(DecodeError::UnknownTag);
        }
        match read_lp_str(data, 1) {
            Err(e) => Err(e),
            Ok(p) => {
                let (s, j) = p;
                if j == data.len() {
                    Ok(ClientMessage::CreateGuild(CreateGuild { name: s }))
                } else {
                    Err(DecodeError::TrailingBytes)
                }
            },
        }
    }
}

impl ServerMessage {
    /// Encodes the message into its canonical wire bytes.
    pub fn encode(self) -> (r: Result<Vec<u8>, EncodeError>)
        ensures
            match r {
                Ok(bytes) => server_encodable(self) && bytes@ == server_msg_bytes(self),
                Err(e) => e == EncodeError::StringTooLong && !server_encodable(self),
            },
    {
        match self {
            ServerMessage::JoinGuild(jg) => {
                let mut out: Vec<u8> = Vec::new();
                out.push(0u8);
                push_u32_le(&mut out, jg.id);
                match push_lp_str(&mut out, jg.name.as_str()) {
                    Err(e) => Err(e),
                    Ok(()) => match push_lp_str(&mut out, jg.icon_url.as_str()) {
                        Err(e) => Err(e),
                        Ok(()) => {
                            proof {
                                assert(out@ =~= seq![0u8] + u32_le(jg.id) + lp_str(jg.name@)
                                    + lp_str(jg.icon_url@));
                            }
                            Ok(out)
                        },
                    },
                }
            },
        }
    }

    /// Decodes wire bytes back into a message, failing on any input that is
    /// not exactly a canonical encoding.
    pub fn decode(data: &[u8]) -> (r: Result<Self, DecodeError>)
        ensures
            match r {
                Ok(m) => m matches ServerMessage::JoinGuild(jg) && parse_server(data@)
                    == Ok::<(u32, Seq<char>, Seq<char>), DecodeError>(
                    (jg.id, jg.name@, jg.icon_url@),
                ),
                Err(e) => parse_server(data@) == Err::<(u32, Seq<char>, Seq<char>), DecodeError>(
                    e,
                ),
            },
    {
        if data.len() < 1 {
            return Err(DecodeError::Truncated);
        }
        let tag: u8 = data[0];
        if tag != 0 {
            return Err(DecodeError::UnknownTag);
        }
        if data.len() - 1 < 4 {
            return Err(DecodeError::Truncated);
        }
        let id: u32 = read_u32_le(data, 1);
        match read_lp_str(data, 5) {
            Err(e) => Err(e),
            Ok(p1) => {
                let (name, j) = p1;
                match read_lp_str(data, j) {
                    Err(e) => Err(e),
                    Ok(p2) => {
                        let (icon, k) = p2;
                        if k == data.len() {
                            Ok(ServerMessage::JoinGuild(JoinGuild { id, name, icon_url: icon }))
                        } else {
                            Err(DecodeError::TrailingBytes)
                        }
                    },
                }
            },
        }
    }
}

/// A length-prefixed string embedded at offset `i` of a larger sequence
/// parses back to exactly the characters it was built from.
proof fn lemma_parse_lp_str_at(b: Seq<u8>, i: int, s: Seq<char>)
    requires
        str_fits(s),
        0 <= i,
        i + 4 + encode_utf8(s).len() <= b.len(),
        b.subrange(i, i + 4 + encode_utf8(s).len()) == lp_str(s),
    ensures
        parse_lp_str(b, i) == Ok::<(Seq<char>, int), DecodeError>(
            (s, i + 4 + encode_utf8(s).len()),
        ),
{
    let k = encode_utf8(s).len() as int;
    let n32 = encode_utf8(s).len() as u32;
    let piece = b.subrange(i, i + 4 + k);
    assert(b[i] == piece[0] && b[i + 1] == piece[1] && b[i + 2] == piece[2] && b[i + 3]
        == piece[3]);
    assert(piece[0] == u32_le(n32)[0] && piece[1] == u32_le(n32)[1] && piece[2] == u32_le(n32)[2]
        && piece[3] == u32_le(n32)[3]);
    lemma_u32_le_roundtrip(n32);
    assert(parse_u32(b, i) == n32);
    assert(n32 as int == k);
    assert forall|x: int| 0 <= x < k implies b.subrange(i + 4, i + 4 + k)[x] == encode_utf8(
        s,
    )[x] by {
        assert(b.subrange(i + 4, i + 4 + k)[x] == b[i + 4 + x]);
        assert(b[i + 4 + x] == piece[4 + x]);
        assert(piece[4 + x] == lp_str(s)[4 + x]);
        assert(lp_str(s)[4 + x] == encode_utf8(s)[x]);
    }
    assert(b.subrange(i + 4, i + 4 + k) =~= encode_utf8(s));
    vstd::utf8::encode_utf8_valid_utf8(s);
    encode_utf8_decode_utf8(s);
}

/// Round-trip law for client messages: decoding a canonical encoding yields
/// the encoded message's payload back.
pub proof fn lemma_client_round_trip(m: ClientMessage)
    requires
        client_encodable(m),
    ensures
        (match m {
            ClientMessage::CreateGuild(cg) => parse_client(client_msg_bytes(m))
                == Ok::<Seq<char>, DecodeError>(cg.name@),
        }),
{
    match m {
        ClientMessage::CreateGuild(cg) => {
            let s = cg.name@;
            let b = client_msg_bytes(m);
            let k = encode_utf8(s).len() as int;
            assert(b.len() == 5 + k);
            assert(b[0] == 0u8);
            assert(b.subrange(1, 5 + k) =~= lp_str(s));
            lemma_parse_lp_str_at(b, 1, s);
        },
    }
}

/// Round-trip law for server messages: decoding a canonical encoding yields
/// the encoded message's payload back.
pub proof fn lemma_server_round_trip(m: ServerMessage)
    requires
        server_encodable(m),
    ensures
        (match m {
            ServerMessage::JoinGuild(jg) => parse_server(server_msg_bytes(m))
                == Ok::<(u32, Seq<char>, Seq<char>), DecodeError>((jg.id, jg.name@, jg.icon_url@)),
        }),
{
    match m {
        ServerMessage::JoinGuild(jg) => {
            let name = jg.name@;
            let icon = jg.icon_url@;
            let b = server_msg_bytes(m);
            let kn = encode_utf8(name).len() as int;
            let ki = encode_utf8(icon).len() as int;
            assert(b.len() == 13 + kn + ki);
            assert(b[0] == 0u8);
            assert(b[1] == u32_le(jg.id)[0] && b[2] == u32_le(jg.id)[1] && b[3] == u32_le(
                jg.id,
            )[2] && b[4] == u32_le(jg.id)[3]);
            lemma_u32_le_roundtrip(jg.id);
            assert(parse_u32(b, 1) == jg.id);
            assert(b.subrange(5, 9 + kn) =~= lp_str(name));
            lemma_parse_lp_str_at(b, 5, name);
            assert(b.subrange(9 + kn, 13 + kn + ki) =~= lp_str(icon));
            lemma_parse_lp_str_at(b, 9 + kn, icon);
        },
    }
}

/// Decoding an empty input fails, for both directions.
pub proof fn lemma_decode_empty()
    ensures
        parse_client(Seq::<u8>::empty()) == Err::<Seq<char>, DecodeError>(DecodeError::Truncated),
        parse_server(Seq::<u8>::empty()) == Err::<(u32, Seq<char>, Seq<char>), DecodeError>(
            DecodeError::Truncated,
        ),
{
}

/// Decoding an input whose leading tag names no variant fails, for both
/// directions.
pub proof fn lemma_decode_unknown_tag(b: Seq<u8>)
    requires
        b.len() >= 1,
        b[0] != 0u8,
    ensures
        parse_client(b) == Err::<Seq<char>, DecodeError>(DecodeError::UnknownTag),
        parse_server(b) == Err::<(u32, Seq<char>, Seq<char>), DecodeError>(DecodeError::UnknownTag),
{
}

/// Decoding any strict prefix of a canonical client encoding reports a
/// truncated input.
pub proof fn lemma_client_truncated(m: ClientMessage, n: int)
    requires
        client_encodable(m),
        0 <= n < client_msg_bytes(m).len(),
    ensures
        parse_client(client_msg_bytes(m).take(n)) == Err::<Seq<char>, DecodeError>(
            DecodeError::Truncated,
        ),
{
    match m {
        ClientMessage::CreateGuild(cg) => {
            let s = cg.name@;
            let b = client_msg_bytes(m);
            let k = encode_utf8(s).len() as int;
            let n32 = encode_utf8(s).len() as u32;
            let t = b.take(n);
            assert(b.len() == 5 + k);
            if n >= 1 {
                assert(t[0] == b[0] && b[0] == 0u8);
                if n >= 5 {
                    assert(t[1] == b[1] && t[2] == b[2] && t[3] == b[3] && t[4] == b[4]);
                    assert(b[1] == u32_le(n32)[0] && b[2] == u32_le(n32)[1] && b[3] == u32_le(
                        n32,
                    )[2] && b[4] == u32_le(n32)[3]);
                    lemma_u32_le_roundtrip(n32);
                    assert(parse_u32(t, 1) == n32);
                    assert(1 + 4 + (n32 as int) > t.len());
                }
            }
        },
    }
}

/// Decoding any strict prefix of a canonical server encoding reports a
/// truncated input.
pub proof fn lemma_server_truncated(m: ServerMessage, n: int)
    requires
        server_encodable(m),
        0 <= n < server_msg_bytes(m).len(),
    ensures
        parse_server(server_msg_bytes(m).take(n)) == Err::<(u32, Seq<char>, Seq<char>),
            DecodeError,
        >(DecodeError::Truncated),
{
    match m {
        ServerMessage::JoinGuild(jg) => {
            let name = jg.name@;
            let icon = jg.icon_url@;
            let b = server_msg_bytes(m);
            let kn = encode_utf8(name).len() as int;
            let ki = encode_utf8(icon).len() as int;
            let kn32 = encode_utf8(name).len() as u32;
            let ki32 = encode_utf8(icon).len() as u32;
            let t = b.take(n);
            assert(b.len() == 13 + kn + ki);
            if n >= 1 {
                assert(t[0] == b[0] && b[0] == 0u8);
                if n >= 9 {
                    assert(t[5] == b[5] && t[6] == b[6] && t[7] == b[7] && t[8] == b[8]);
                    assert(b[5] == u32_le(kn32)[0] && b[6] == u32_le(kn32)[1] && b[7] == u32_le(
                        kn32,
                    )[2] && b[8] == u32_le(kn32)[3]);
                    lemma_u32_le_roundtrip(kn32);
                    assert(parse_u32(t, 5) == kn32);
                    if n >= 9 + kn {
                        assert(t.subrange(5, 9 + kn) =~= lp_str(name));
                        lemma_parse_lp_str_at(t, 5, name);
                        let j = 9 + kn;
                        if n >= j + 4 {
                            assert(t[j] == b[j] && t[j + 1] == b[j + 1] && t[j + 2] == b[j + 2]
                                && t[j + 3] == b[j + 3]);
                            assert(b[j] == u32_le(ki32)[0] && b[j + 1] == u32_le(ki32)[1] && b[j
                                + 2] == u32_le(ki32)[2] && b[j + 3] == u32_le(ki32)[3]);
                            lemma_u32_le_roundtrip(ki32);
                            assert(parse_u32(t, j) == ki32);
                            assert(j + 4 + (ki32 as int) > t.len());
                        }
                    }
                }
            }
        },
    }
}

/// Decoding is exact: a server parse can only succeed on the canonical
/// encoding of what it returns.
pub proof fn lemma_parse_server_canonical(b: Seq<u8>)
    ensures
        parse_server(b) matches Ok(p) ==> str_fits(p.1) && str_fits(p.2) && b == seq![0u8]
            + u32_le(p.0) + lp_str(p.1) + lp_str(p.2),
{
    if parse_server(b) is Ok {
        let p = parse_server(b)->Ok_0;
        let id = parse_u32(b, 1);
        let n1 = parse_u32(b, 5) as int;
        let bytes1 = b.subrange(9, 9 + n1);
        let j = 9 + n1;
        let n2 = parse_u32(b, j) as int;
        let bytes2 = b.subrange(j + 4, j + 4 + n2);
        assert(valid_utf8(bytes1) && valid_utf8(bytes2) && b.len() == j + 4 + n2);
        vstd::utf8::decode_utf8_encode_utf8(bytes1);
        vstd::utf8::decode_utf8_encode_utf8(bytes2);
        lemma_u32_of_le_roundtrip(b[1], b[2], b[3], b[4]);
        lemma_u32_of_le_roundtrip(b[5], b[6], b[7], b[8]);
        lemma_u32_of_le_roundtrip(b[j], b[j + 1], b[j + 2], b[j + 3]);
        assert(b =~= seq![0u8] + u32_le(id) + lp_str(p.1) + lp_str(p.2));
    }
}

/// Decoding is exact: a client parse can only succeed on the canonical
/// encoding of what it returns.
pub proof fn lemma_parse_client_canonical(b: Seq<u8>)
    ensures
        parse_client(b) matches Ok(s) ==> str_fits(s) && b == seq![0u8] + lp_str(s),
{
    if parse_client(b) is Ok {
        let s = parse_client(b)->Ok_0;
        let n = parse_u32(b, 1) as int;
        let bytes = b.subrange(5, 5 + n);
        assert(valid_utf8(bytes) && s == decode_utf8(bytes) && b.len() == 5 + n);
        vstd::utf8::decode_utf8_encode_utf8(bytes);
        assert(encode_utf8(s) == bytes);
        lemma_u32_of_le_roundtrip(b[1], b[2], b[3], b[4]);
        assert(b =~= seq![0u8] + lp_str(s));
    }
}

} // verus!
