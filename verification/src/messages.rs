//! The message schema: the closed sets of client-originated and
//! server-originated message variants carried over the wire.

use vstd::prelude::*;

verus! {

/// Payload of the client's request to create a new guild.
#[derive(Debug, Clone, PartialEq, Eq)]
pub struct CreateGuild {
    pub name: String,
}

/// Client-to-server messages. Decoding an unrecognized tag fails; new
/// variants must only ever be appended, so that old decoders keep working.
#[derive(Debug, Clone, PartialEq, Eq)]
pub enum ClientMessage {
    CreateGuild(CreateGuild),
}

/// Payload of the server's notification that the client joined a guild.
#[derive(Debug, Clone, PartialEq, Eq)]
pub struct JoinGuild {
    pub id: u32,
    pub name: String,
    pub icon_url: String,
}

/// Server-to-client messages. The same closed-set rule as for
/// [`ClientMessage`] applies.
#[derive(Debug, Clone, PartialEq, Eq)]
pub enum ServerMessage {
    JoinGuild(JoinGuild),
}

} // verus!
