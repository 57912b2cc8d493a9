use chatcore::model::{mock_guilds, ChannelKind};
use chatcore::panels::{AwesomeCentralPanel, ChannelsPanel, GuildsPanel, MembersPanel, MessageBox};
use chatcore::widgets::MessageWidget;

#[test]
fn mock_guilds_contents() {
    let guilds = mock_guilds();
    assert_eq!(guilds.len(), 1);
    let g = &guilds[0];
    assert_eq!(g.id, 1);
    assert_eq!(g.name, "Fresko servr");
    assert_eq!(g.focused_channel_idx, 0);
    assert_eq!(g.channels.len(), 2);
    assert_eq!(g.channels[0].name, "general");
    assert_eq!(g.channels[0].description, "very awesome text chanel");
    match &g.channels[0].kind {
        ChannelKind::Text(tc) => {
            assert_eq!(tc.messages.len(), 3);
            assert_eq!(tc.messages[0].author_id, 1);
            assert_eq!(tc.messages[0].content, "yo waddup bro");
            assert_eq!(tc.messages[1].author_id, 2);
            assert_eq!(tc.messages[1].content, "uhhgh im soo bloated and full");
            assert_eq!(tc.messages[2].author_id, 1);
            assert_eq!(tc.messages[2].content, "I need to rub my belly");
        }
        ChannelKind::Voice => panic!("general channel must be a text channel"),
    }
    assert_eq!(g.channels[1].name, "vois");
    assert_eq!(g.channels[1].description, "blabllg");
    assert!(matches!(g.channels[1].kind, ChannelKind::Voice));
    assert_eq!(g.members.len(), 4);
    assert_eq!(g.members[&1].name, "Naruto");
    assert_eq!(g.members[&2].name, "Hinata");
    assert_eq!(g.members[&3].name, "Susuke");
    assert_eq!(g.members[&4].name, "Chiyo Mihama");
}

#[test]
fn panel_constructors_keep_their_arguments() {
    let guilds = mock_guilds();

    let p = GuildsPanel::new(&guilds, Some(0));
    assert_eq!(p.guilds.len(), 1);
    assert_eq!(p.selected_guild, Some(0));

    let c = AwesomeCentralPanel::new(&guilds[0]);
    assert_eq!(c.guild.id, 1);

    let ch = ChannelsPanel::new(&guilds[0]);
    assert_eq!(ch.guild.name, "Fresko servr");

    let members: Vec<_> = guilds[0].members.values().collect();
    let mp = MembersPanel::new(members.as_slice());
    assert_eq!(mp.0.len(), 4);

    let mb = MessageBox::new("draft".to_string());
    assert_eq!(mb.buffer, "draft");
}

#[test]
fn message_widget_pairs_message_and_author() {
    let guilds = mock_guilds();
    let g = &guilds[0];
    let ChannelKind::Text(tc) = &g.channels[0].kind else {
        panic!("expected a text channel");
    };
    let w = MessageWidget::new(&tc.messages[0], &g.members[&1]);
    assert_eq!(w.msg.content, "yo waddup bro");
    assert_eq!(w.author.name, "Naruto");
}
