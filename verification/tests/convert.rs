use mtproto_satori::convert::{
    channel_id, channel_target, direct_channel, direct_target, parse_thread_id, satori_channel_from_tg_peer,
    satori_guild_from_tg_peer, satori_link_from_tg_document, satori_link_from_tg_group_photo,
    satori_link_from_tg_peer_photo, satori_link_from_tg_photo, satori_link_from_tg_user_photo,
    satori_login_from_tg_user, satori_user_from_tg_peer, satori_user_from_tg_user, split_channel_id, user_target,
    PeerTarget,
};
use mtproto_satori::error::rpc_status;
use mtproto_satori::file_id::{internal_link_route, FileId, InternalLinkRoute};
use mtproto_satori::telegram::{ChannelInfo, GroupInfo, PeerInfo, PhotoSizeInfo, RawDocument, RawPhoto, UserInfo};
use mtproto_satori::types::{ChannelType, LoginStatus};

fn alice() -> UserInfo {
    UserInfo {
        dialog_id: 5,
        username: Some("alice".to_string()),
        full_name: "Alice A".to_string(),
        is_bot: false,
        photo_id: Some(3),
        access_hash: Some(2),
    }
}

fn group() -> GroupInfo {
    GroupInfo { dialog_id: -100, username: None, title: None, photo_id: Some(9), access_hash: None }
}

fn channel() -> ChannelInfo {
    ChannelInfo {
        dialog_id: -1000000000042,
        username: Some("news".to_string()),
        title: "News".to_string(),
        photo_id: None,
        access_hash: Some(1),
    }
}

#[test]
fn photo_links() {
    assert_eq!(
        satori_link_from_tg_user_photo(1, &alice()),
        Some("internal:telegram/1/AAAAAAAAAAAFAAAAAAAAAAIAAAAAAAAAAw".to_string())
    );
    assert_eq!(
        satori_link_from_tg_group_photo(1, &group()),
        Some("internal:telegram/1/AP________-cAAAAAAAAAAAAAAAAAAAACQ".to_string())
    );
    assert_eq!(satori_link_from_tg_peer_photo(1, &PeerInfo::Channel(channel())), None);
}

#[test]
fn document_and_photo_links() {
    let d = RawDocument { id: 10, access_hash: 11, file_reference: vec![7] };
    assert_eq!(satori_link_from_tg_document(-3, &d), "internal:telegram/-3/AgAAAAAAAAAKAAAAAAAAAAsAAAABBw");
    let p = RawPhoto {
        id: 20,
        access_hash: 21,
        file_reference: vec![8],
        sizes: vec![
            PhotoSizeInfo::Size { kind: "x".to_string(), w: 10, h: 10 },
            PhotoSizeInfo::Other,
            PhotoSizeInfo::Progressive { kind: "y".to_string(), w: 20, h: 10 },
            PhotoSizeInfo::Size { kind: "s".to_string(), w: 5, h: 5 },
        ],
    };
    assert_eq!(
        satori_link_from_tg_photo(0, &p),
        Some("internal:telegram/0/AQAAAAAAAAAUAAAAAAAAABUAAAABCAAAAAF5".to_string())
    );
    let empty = RawPhoto { id: 1, access_hash: 1, file_reference: vec![], sizes: vec![PhotoSizeInfo::Other] };
    assert_eq!(satori_link_from_tg_photo(0, &empty), None);
}

#[test]
fn users_and_logins() {
    let u = satori_user_from_tg_user(1, &alice());
    assert_eq!(u.id, "5");
    assert_eq!(u.name.as_deref(), Some("alice"));
    assert_eq!(u.nick.as_deref(), Some("Alice A"));
    assert_eq!(u.is_bot, Some(false));
    assert!(u.avatar.is_some());
    let g = satori_user_from_tg_peer(1, &PeerInfo::Group(group()));
    assert_eq!(g.id, "-100");
    assert_eq!(g.nick.as_deref(), Some(""));
    assert_eq!(g.is_bot, Some(false));
    let login = satori_login_from_tg_user(&alice());
    assert_eq!(login.platform.as_deref(), Some("telegram"));
    assert_eq!(login.adapter, "mtproto");
    assert!(login.status == LoginStatus::Online);
    assert_eq!(login.user.unwrap().id, "5");
}

#[test]
fn guilds_and_channels() {
    assert!(satori_guild_from_tg_peer(1, &PeerInfo::User(alice())).is_none());
    let g = satori_guild_from_tg_peer(1, &PeerInfo::Channel(channel())).unwrap();
    assert_eq!((g.id.as_str(), g.name.as_deref()), ("-1000000000042", Some("News")));
    let c = satori_channel_from_tg_peer(&PeerInfo::User(alice()), None);
    assert_eq!(c.id, "5");
    assert!(c.channel_type == ChannelType::Direct);
    assert_eq!(c.name.as_deref(), Some("Alice A"));
    let c = satori_channel_from_tg_peer(&PeerInfo::Group(group()), Some(17));
    assert_eq!(c.id, "-100:17");
    assert!(c.channel_type == ChannelType::Text);
    assert_eq!(c.name, None);
    assert_eq!(channel_id(-5, Some(-2)), "-5:-2");
}

#[test]
fn channel_ids_read_back() {
    for (chat, thread) in [(5i64, None), (-1000000000042, Some(7i32)), (i64::MIN, Some(i32::MIN))] {
        let (target, th) = split_channel_id(&channel_id(chat, thread));
        assert!(matches!(target, PeerTarget::Id(n) if n == chat));
        assert_eq!(th.map(|t| parse_thread_id(&t).ok().unwrap()), thread);
    }
    let (target, th) = split_channel_id("somebody:12:3");
    assert!(matches!(target, PeerTarget::Username(ref u) if u == "somebody"));
    assert_eq!(th.as_deref(), Some("12:3"));
    let e = parse_thread_id("12:3").err().unwrap();
    assert_eq!((e.code, e.reason.as_str()), (400, "Thread ID invalid."));
}

#[test]
fn channel_and_user_targets() {
    assert!(matches!(channel_target("5:1"), Ok((PeerTarget::Id(5), Some(ref t))) if t == "1"));
    let e = channel_target("0").err().unwrap();
    assert_eq!((e.code, e.reason.as_str()), (400, "Peer ID invalid."));
    assert!(channel_target("-1000000000000").is_err());
    assert!(matches!(channel_target("-1000000000001"), Ok((PeerTarget::Id(_), None))));
    assert!(matches!(user_target("+12"), Ok(PeerTarget::Id(12))));
    let e = user_target("1099511627776").err().unwrap();
    assert_eq!((e.code, e.reason.as_str()), (400, "Invalid user ID."));
    assert!(matches!(user_target("bob"), Ok(PeerTarget::Username(ref u)) if u == "bob"));
    assert!(matches!(direct_target("0"), PeerTarget::Id(0)));
    assert!(matches!(direct_target("@bob"), PeerTarget::Username(ref u) if u == "@bob"));
    let c = direct_channel(-42);
    assert_eq!(c.id, "-42");
    assert!(c.channel_type == ChannelType::Direct);
}

#[test]
fn internal_links() {
    let f = FileId::PeerPhoto { peer_id: 1, access_hash: 2, photo_id: 3 };
    let text = f.encode();
    assert_eq!(text, "AAAAAAAAAAABAAAAAAAAAAIAAAAAAAAAAw");
    assert!(matches!(internal_link_route(4, 5, &text), InternalLinkRoute::WrongUser));
    assert!(matches!(internal_link_route(4, 4, "!!"), InternalLinkRoute::InvalidLink));
    assert!(matches!(
        internal_link_route(4, 4, &text),
        InternalLinkRoute::Download(FileId::PeerPhoto { peer_id: 1, access_hash: 2, photo_id: 3 })
    ));
}

#[test]
fn file_ids_round_trip() {
    let ids = vec![
        FileId::PeerPhoto { peer_id: -5, access_hash: i64::MAX, photo_id: 0 },
        FileId::Photo { id: 1, access_hash: 2, file_reference: vec![1, 2, 3], thumb_size: b"x".to_vec() },
        FileId::Document { id: i64::MIN, access_hash: -1, file_reference: vec![] },
    ];
    for f in ids {
        let back = FileId::decode(&f.encode()).unwrap();
        assert_eq!(back.to_bytes(), f.to_bytes());
    }
    assert!(FileId::decode("").is_none());
    assert!(FileId::decode("AA").is_none());
    assert!(FileId::decode("Aw").is_none());
}

#[test]
fn rpc_statuses() {
    assert_eq!(rpc_status(400), 400);
    assert_eq!(rpc_status(420), 420);
    assert_eq!(rpc_status(-503), 500);
    assert_eq!(rpc_status(99), 500);
    assert_eq!(rpc_status(65536 + 404), 404);
}
