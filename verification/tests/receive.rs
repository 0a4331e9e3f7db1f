use mtproto_satori::element::dump;
use mtproto_satori::event::{satori_event_from_tg_callback, satori_event_from_tg_message, satori_event_from_tg_messages, CallbackInfo};
use mtproto_satori::message_receive::{
    entities_would_fail, message_convertible, satori_element_from_tg_entities, satori_elements_from_tg_message,
    satori_message_from_tg_message, EntityKind, MessageEntity,
};
use mtproto_satori::telegram::{
    DocAttr, DocumentInfo, GroupInfo, MediaInfo, MessageInfo, PeerInfo, PhotoSizeInfo, RawDocument, RawPhoto,
    ReplyHeader, UserInfo,
};
use mtproto_satori::types::ChannelType;
use mtproto_satori::utf16::{from_utf16_lossy, to_utf16};

fn entity(kind: EntityKind, offset: i32, length: i32) -> MessageEntity {
    MessageEntity { kind, offset, length }
}

fn alice() -> UserInfo {
    UserInfo {
        dialog_id: 5,
        username: Some("alice".to_string()),
        full_name: "Alice A".to_string(),
        is_bot: false,
        photo_id: None,
        access_hash: None,
    }
}

fn plain(id: i32, text: &str) -> MessageInfo {
    MessageInfo {
        id,
        text: text.to_string(),
        entities: None,
        reply_header: None,
        media: None,
        peer: Some(PeerInfo::User(alice())),
        sender: None,
        date: 1000,
        edit_date: None,
    }
}

#[test]
fn entities_to_markup() {
    let es = [entity(EntityKind::Mention, 3, 4), entity(EntityKind::Bold, 8, 4)];
    let out = satori_element_from_tg_entities("hi @bob\nbold", Some(&es));
    assert_eq!(dump(&out), "hi <at id=\"bob\" name=\"bob\"/><br/><b>bold</b>");
}

#[test]
fn entities_nest_and_link() {
    let es = [
        entity(EntityKind::Italic, 0, 5),
        entity(EntityKind::Bold, 0, 2),
        entity(EntityKind::TextUrl { url: "https://x.y/?a&b".to_string() }, 2, 3),
        entity(EntityKind::Other, 0, 1),
    ];
    let out = satori_element_from_tg_entities("abcde!", Some(&es));
    assert_eq!(dump(&out), "<i><b>ab</b></i><a href=\"https://x.y/?a&amp;b\"><i>cde</i></a>!");
}

#[test]
fn entities_emoji_and_mention_name() {
    let es = [
        entity(EntityKind::CustomEmoji { document_id: 77 }, 0, 2),
        entity(EntityKind::MentionName { user_id: 9 }, 3, 3),
    ];
    let out = satori_element_from_tg_entities("😀 Bob", Some(&es));
    assert_eq!(dump(&out), "<emoji id=\"77\"/> <at id=\"9\" name=\"Bob\"/>");
    assert_eq!(dump(&satori_element_from_tg_entities("a<b", None)), "a&lt;b");
    assert!(satori_element_from_tg_entities("", None).is_empty());
}

#[test]
fn entities_out_of_domain() {
    let bad = [entity(EntityKind::Bold, 0, 9)];
    assert!(entities_would_fail("abc", Some(&bad)));
    let mention = [entity(EntityKind::Mention, 0, 2)];
    assert!(entities_would_fail("éb", Some(&mention)));
    assert!(!entities_would_fail("@b", Some(&mention)));
    let ignored = [entity(EntityKind::Other, 0, 99)];
    assert!(!entities_would_fail("abc", Some(&ignored)));
}

#[test]
fn utf16_round_trip() {
    for s in ["", "abc", "😀x", "\u{10ffff}\u{e000}\u{d7ff}"] {
        let units = to_utf16(s);
        let back: String = from_utf16_lossy(&units).into_iter().collect();
        assert_eq!(back, s);
    }
    assert_eq!(to_utf16("😀"), vec![0xd83d, 0xde00]);
    let lone: String = from_utf16_lossy(&[0xd800, 0x41, 0xdc00]).into_iter().collect();
    assert_eq!(lone, "\u{fffd}A\u{fffd}");
}

#[test]
fn message_with_quote_and_location() {
    let mut m = plain(7, "hello");
    m.reply_header = Some(ReplyHeader {
        forum_topic: false,
        reply_to_msg_id: Some(42),
        reply_to_top_id: None,
        reply_to_peer_id: Some(-100),
        quote_text: Some("q".to_string()),
        quote_entities: None,
    });
    m.media = Some(MediaInfo::Geo { latitude: "1.5".to_string(), longitude: "2".to_string() });
    assert!(message_convertible(&m));
    let out = satori_elements_from_tg_message(1, &m);
    assert_eq!(dump(&out), "<quote id=\"42\"><author id=\"-100\"/>q</quote>hello<location lat=\"1.5\" lon=\"2\"/>");
    let msg = satori_message_from_tg_message(1, &m);
    assert_eq!(msg.id, "7");
    assert_eq!(msg.content, dump(&out));
    let c = msg.channel.unwrap();
    assert_eq!(c.id, "5");
    assert!(c.channel_type == ChannelType::Direct);
    assert!(msg.guild.is_none());
    assert_eq!(msg.user.unwrap().id, "5");
    assert_eq!(msg.created_at, Some(1000));
    assert_eq!(msg.updated_at, None);
}

#[test]
fn forum_topic_thread() {
    let mut m = plain(8, "t");
    m.peer = Some(PeerInfo::Group(GroupInfo {
        dialog_id: -100,
        username: None,
        title: Some("G".to_string()),
        photo_id: None,
        access_hash: None,
    }));
    m.sender = Some(PeerInfo::User(alice()));
    m.reply_header = Some(ReplyHeader {
        forum_topic: true,
        reply_to_msg_id: Some(3),
        reply_to_top_id: None,
        reply_to_peer_id: Some(-100),
        quote_text: None,
        quote_entities: None,
    });
    let msg = satori_message_from_tg_message(1, &m);
    assert_eq!(msg.channel.unwrap().id, "-100:3");
    assert_eq!(msg.content, "t");
    assert_eq!(msg.guild.unwrap().name.as_deref(), Some("G"));
    assert_eq!(msg.user.unwrap().id, "5");
    m.reply_header.as_mut().unwrap().reply_to_top_id = Some(2);
    let msg = satori_message_from_tg_message(1, &m);
    assert_eq!(msg.channel.unwrap().id, "-100:2");
    assert_eq!(msg.content, "<quote id=\"3\"><author id=\"-100\"/></quote>t");
}

#[test]
fn media_elements() {
    let doc = RawDocument { id: 10, access_hash: 11, file_reference: vec![7] };
    let link = "internal:telegram/1/AgAAAAAAAAAKAAAAAAAAAAsAAAABBw";
    let mut m = plain(1, "");
    m.media = Some(MediaInfo::Sticker { document: Some(doc), emoji: "😀".to_string() });
    assert_eq!(dump(&satori_elements_from_tg_message(1, &m)), format!("<img src=\"{}\" title=\"😀\"/>", link));
    let info = |attrs: Vec<DocAttr>| DocumentInfo { raw: RawDocument { id: 10, access_hash: 11, file_reference: vec![7] }, attrs };
    m.media = Some(MediaInfo::Document {
        info: Some(info(vec![DocAttr::Audio, DocAttr::Filename { name: "a.mp3".to_string() }])),
        video: false,
        round: false,
        voice: false,
    });
    assert_eq!(dump(&satori_elements_from_tg_message(1, &m)), format!("<audio src=\"{}\" title=\"a.mp3\"/>", link));
    m.media = Some(MediaInfo::Document { info: Some(info(vec![DocAttr::Animated])), video: false, round: false, voice: true });
    assert_eq!(dump(&satori_elements_from_tg_message(1, &m)), format!("<video src=\"{}\"/>", link));
    m.media = Some(MediaInfo::Document { info: Some(info(vec![])), video: false, round: false, voice: false });
    assert_eq!(dump(&satori_elements_from_tg_message(1, &m)), format!("<file src=\"{}\"/>", link));
    m.media = Some(MediaInfo::Document { info: None, video: true, round: false, voice: false });
    assert_eq!(dump(&satori_elements_from_tg_message(1, &m)), "");
    m.media = Some(MediaInfo::Photo {
        photo: Some(RawPhoto { id: 1, access_hash: 1, file_reference: vec![], sizes: vec![PhotoSizeInfo::Other] }),
    });
    assert_eq!(dump(&satori_elements_from_tg_message(1, &m)), "");
    m.media = Some(MediaInfo::Photo {
        photo: Some(RawPhoto {
            id: 1,
            access_hash: 1,
            file_reference: vec![],
            sizes: vec![PhotoSizeInfo::Size { kind: "big".to_string(), w: 1 << 16, h: 1 << 16 }],
        }),
    });
    assert!(!message_convertible(&m));
}

#[test]
fn message_events() {
    let e = satori_event_from_tg_message(&alice(), &plain(3, "hi"));
    assert_eq!(e.event_type, "message-created");
    assert_eq!(e.sn, 0);
    assert_eq!(e.timestamp, Some(1000));
    assert_eq!(e.login.user.as_ref().unwrap().id, "5");
    assert_eq!(e.message.as_ref().unwrap().content, "hi");
    assert_eq!(e.channel.as_ref().unwrap().id, "5");
    assert_eq!(e.user.as_ref().unwrap().nick.as_deref(), Some("Alice A"));
    let album = [plain(3, "first"), plain(4, "<second>")];
    let e = satori_event_from_tg_messages(&alice(), &album);
    let m = e.message.unwrap();
    assert_eq!(m.id, "3");
    assert_eq!(m.content, "first&lt;second&gt;");
}

#[test]
fn callback_events() {
    let cb = CallbackInfo { data: b"btn-1".to_vec(), peer: Some(PeerInfo::User(alice())) };
    let e = satori_event_from_tg_callback(&alice(), &cb, &plain(3, "menu"));
    assert_eq!(e.event_type, "interaction/button");
    assert_eq!(e.button.as_ref().unwrap().id, "btn-1");
    assert_eq!(e.timestamp, None);
    assert_eq!(e.user.unwrap().id, "5");
    assert!(e.member.is_none());
    let cb = CallbackInfo { data: vec![0xff, b'a', 0xe2, 0x82], peer: None };
    let e = satori_event_from_tg_callback(&alice(), &cb, &plain(3, "menu"));
    assert_eq!(e.button.unwrap().id, "\u{fffd}a\u{fffd}");
    assert!(e.user.is_none());
}
