//! The client-side data model the panels render: guilds, their channels,
//! members and messages, plus the fixed sample data the client starts
//! with before any server state arrives.

use vstd::prelude::*;

verus! {

broadcast use vstd::std_specs::hash::group_hash_axioms;

use std::collections::HashMap;

/// One chat message inside a text channel.
pub struct Message {
    pub author_id: u32,
    pub content: String,
}

/// The body of a text channel: its messages, oldest first.
pub struct TextChannel {
    pub messages: Vec<Message>,
}

/// What kind of channel this is.
pub enum ChannelKind {
    /// A text channel with its messages.
    Text(TextChannel),
    /// A voice channel; it carries no client-side state.
    Voice,
}

/// One channel of a guild.
pub struct Channel {
    pub name: String,
    pub kind: ChannelKind,
    pub description: String,
}

/// One member of a guild.
pub struct GuildMember {
    pub name: String,
    pub avatar_url: String,
}

/// One guild: identity, channels, members keyed by member id, and which
/// channel is focused.
pub struct Guild {
    pub id: u32,
    pub name: String,
    pub icon_url: String,
    pub channels: Vec<Channel>,
    pub members: HashMap<u32, GuildMember>,
    pub focused_channel_idx: usize,
}

/// The exact member table of the sample guild.
pub open spec fn mock_members_spec(m: Map<u32, GuildMember>) -> bool {
    &&& m.dom() == set![1u32, 2u32, 3u32, 4u32]
    &&& m[1].name@ == "Naruto"@
    &&& m[1].avatar_url@
        == "https://cdn.donmai.us/sample/04/bf/__uzumaki_naruto_naruto_drawn_by_nanxdaime__sample-04bf37f6579545a0cb592d06d5e0a5a2.jpg"@
    &&& m[2].name@ == "Hinata"@
    &&& m[2].avatar_url@
        == "https://cdn.discordapp.com/attachments/1332138826273001472/1405609893250994337/RDMOkNv.jpg?ex=689f73b9&is=689e2239&hm=322e857411f947cb1eaa743cd48358a138f8c009c46db33459f4c270c77a8d98&"@
    &&& m[3].name@ == "Susuke"@
    &&& m[3].avatar_url@
        == "https://cdn.donmai.us/original/ef/46/__uchiha_sasuke_naruto_drawn_by_user_tmsf7747__ef463210de5702c88049cdf119b63daf.jpg"@
    &&& m[4].name@ == "Chiyo Mihama"@
    &&& m[4].avatar_url@
        == "https://external-content.duckduckgo.com/iu/?u=https%3A%2F%2Fi.pinimg.com%2Foriginals%2F89%2Ff4%2Fa5%2F89f4a54f95d04aebba4e9cadd0082e39.jpg&f=1&nofb=1&ipt=d14a02a9ef70d9cb2cd87f2173da2235264c7a13a30258fc105ff1cf80608d84"@
}

/// The exact sample data: one guild, its two channels, the general
/// channel's three messages, and the four members.
pub open spec fn mock_guilds_spec(gs: Seq<Guild>) -> bool {
    &&& gs.len() == 1
    &&& gs[0].id == 1
    &&& gs[0].name@ == "Fresko servr"@
    &&& gs[0].icon_url@
        == "https://cdn.donmai.us/original/fc/4b/__izuna_blue_archive_drawn_by_aven_r18g__fc4b072b0db2543d374cd3c75b997745.jpg"@
    &&& gs[0].focused_channel_idx == 0
    &&& gs[0].channels@.len() == 2
    &&& gs[0].channels@[0].name@ == "general"@
    &&& gs[0].channels@[0].description@ == "very awesome text chanel"@
    &&& gs[0].channels@[0].kind matches ChannelKind::Text(tc) && {
        &&& tc.messages@.len() == 3
        &&& tc.messages@[0].author_id == 1 && tc.messages@[0].content@ == "yo waddup bro"@
        &&& tc.messages@[1].author_id == 2 && tc.messages@[1].content@
            == "uhhgh im soo bloated and full"@
        &&& tc.messages@[2].author_id == 1 && tc.messages@[2].content@
            == "I need to rub my belly"@
    }
    &&& gs[0].channels@[1].name@ == "vois"@
    &&& gs[0].channels@[1].description@ == "blabllg"@
    &&& gs[0].channels@[1].kind is Voice
    &&& mock_members_spec(gs[0].members@)
}

/// The fixed sample guild list the client starts with.
pub fn mock_guilds() -> (r: Vec<Guild>)
    ensures
        mock_guilds_spec(r@),
{
    let mut members: HashMap<u32, GuildMember> = HashMap::new();
    members.insert(
        1,
        GuildMember {
            name: "Naruto".to_owned(),
            avatar_url: "https://cdn.donmai.us/sample/04/bf/__uzumaki_naruto_naruto_drawn_by_nanxdaime__sample-04bf37f6579545a0cb592d06d5e0a5a2.jpg".to_owned(),
        },
    );
    members.insert(
        2,
        GuildMember {
            name: "Hinata".to_owned(),
            avatar_url: "https://cdn.discordapp.com/attachments/1332138826273001472/1405609893250994337/RDMOkNv.jpg?ex=689f73b9&is=689e2239&hm=322e857411f947cb1eaa743cd48358a138f8c009c46db33459f4c270c77a8d98&".to_owned(),
        },
    );
    members.insert(
        3,
        GuildMember {
            name: "Susuke".to_owned(),
            avatar_url: "https://cdn.donmai.us/original/ef/46/__uchiha_sasuke_naruto_drawn_by_user_tmsf7747__ef463210de5702c88049cdf119b63daf.jpg".to_owned(),
        },
    );
    members.insert(
        4,
        GuildMember {
            name: "Chiyo Mihama".to_owned(),
            avatar_url: "https://external-content.duckduckgo.com/iu/?u=https%3A%2F%2Fi.pinimg.com%2Foriginals%2F89%2Ff4%2Fa5%2F89f4a54f95d04aebba4e9cadd0082e39.jpg&f=1&nofb=1&ipt=d14a02a9ef70d9cb2cd87f2173da2235264c7a13a30258fc105ff1cf80608d84".to_owned(),
        },
    );
    proof {
        assert(members@.dom() =~= set![1u32, 2u32, 3u32, 4u32]);
    }

    let mut messages: Vec<Message> = Vec::new();
    messages.push(Message { author_id: 1, content: "yo waddup bro".to_owned() });
    messages.push(Message { author_id: 2, content: "uhhgh im soo bloated and full".to_owned() });
    messages.push(Message { author_id: 1, content: "I need to rub my belly".to_owned() });

    let mut channels: Vec<Channel> = Vec::new();
    channels.push(
        Channel {
            name: "general".to_owned(),
            kind: ChannelKind::Text(TextChannel { messages }),
            description: "very awesome text chanel".to_owned(),
        },
    );
    channels.push(
        Channel {
            name: "vois".to_owned(),
            kind: ChannelKind::Voice,
            description: "blabllg".to_owned(),
        },
    );

    let mut guilds: Vec<Guild> = Vec::new();
    guilds.push(
        Guild {
            id: 1,
            name: "Fresko servr".to_owned(),
            icon_url: "https://cdn.donmai.us/original/fc/4b/__izuna_blue_archive_drawn_by_aven_r18g__fc4b072b0db2543d374cd3c75b997745.jpg".to_owned(),
            channels,
            members,
            focused_channel_idx: 0,
        },
    );
    guilds
}

} // verus!
