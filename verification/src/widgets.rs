//! The widget view types that pair model values for rendering.

use vstd::prelude::*;

verus! {

use crate::model::{GuildMember, Message};

/// One rendered chat message: the message and its author.
pub struct MessageWidget<'a> {
    pub msg: &'a Message,
    pub author: &'a GuildMember,
}

impl<'a> MessageWidget<'a> {
    /// Pairs a message with its author.
    pub fn new(msg: &'a Message, author: &'a GuildMember) -> (r: Self)
        ensures
            r.msg == msg,
            r.author == author,
    {
        Self { msg, author }
    }
}

} // verus!
