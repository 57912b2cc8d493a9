//! The panel view types: each one borrows the slice of model state a
//! panel renders, plus the response types a rendered panel can answer
//! with. Rendering itself is the embedding application's business.

use vstd::prelude::*;

verus! {

use crate::model::Guild;

/// The left-most panel: every guild, and which one is selected.
pub struct GuildsPanel<'a> {
    pub guilds: &'a [Guild],
    pub selected_guild: Option<usize>,
}

/// What the guilds panel answered.
pub enum GuildsPanelResponse {
    /// The home button.
    Home,
    /// The guild at this index.
    Guild(usize),
    /// The new-guild button.
    New,
}

impl<'a> GuildsPanel<'a> {
    /// Pairs the guild list with the current selection.
    pub fn new(guilds: &'a [Guild], selected_guild: Option<usize>) -> (r: Self)
        ensures
            r.guilds == guilds,
            r.selected_guild == selected_guild,
    {
        Self { guilds, selected_guild }
    }
}

/// What the central panel answered.
pub enum AwesomePanelResponse {
    /// The member-list toggle button.
    ToggleMemberList,
}

/// The central panel: the focused channel of one guild.
pub struct AwesomeCentralPanel<'a> {
    pub guild: &'a Guild,
}

impl<'a> AwesomeCentralPanel<'a> {
    /// Wraps the guild whose focused channel is shown.
    pub fn new(guild: &'a Guild) -> (r: Self)
        ensures
            r.guild == guild,
    {
        Self { guild }
    }
}

/// The right-hand panel: whatever member collection the caller hands in.
pub struct MembersPanel<T>(pub T);

impl<T> MembersPanel<T> {
    /// Wraps the members to list.
    pub fn new(members: T) -> (r: Self)
        ensures
            r.0 == members,
    {
        MembersPanel(members)
    }
}

/// What the message box answered.
pub enum MessageBoxResponse {
    /// The draft was submitted with this text.
    Send(String),
    /// The attach-file button.
    PickFile,
    /// The emoji button.
    Emoji,
}

/// The message entry box; it owns the draft text while shown.
pub struct MessageBox {
    pub buffer: String,
}

impl MessageBox {
    /// Wraps the current draft text.
    pub fn new(buffer: String) -> (r: Self)
        ensures
            r.buffer@ == buffer@,
    {
        Self { buffer }
    }
}

/// The channel list panel of one guild.
pub struct ChannelsPanel<'a> {
    pub guild: &'a Guild,
}

impl<'a> ChannelsPanel<'a> {
    /// Wraps the guild whose channels are listed.
    pub fn new(guild: &'a Guild) -> (r: Self)
        ensures
            r.guild == guild,
    {
        Self { guild }
    }
}

} // verus!
