use mtproto_satori::authorization::{check_authorization, AuthHeaders, AuthOutcome, SatoriAuthorization, UnauthorizedReason};
use mtproto_satori::infos::{info_request, parse_reply};
use mtproto_satori::markup::parse;
use mtproto_satori::message_send::{
    plan_pack, to_reply_markup, EncoderInfo, InlineButton, MessageEncoder, MessagePack, PackSend,
};
use mtproto_satori::telegram::{DocAttr, PeerInfo, UserInfo};

fn no_info() -> EncoderInfo {
    EncoderInfo { emojis: Vec::new(), users_by_name: Vec::new(), users_by_id: Vec::new() }
}

fn encode(src: &str, info: EncoderInfo) -> Vec<MessagePack> {
    let elements = parse(src).unwrap();
    let mut encoder = MessageEncoder::new(info);
    encoder.render(&elements);
    encoder.flush();
    encoder.into_packs()
}

#[test]
fn encode_formatting() {
    let packs = encode("<b>hi</b><br/>x<p>para</p><spl>s</spl><code>c&lt;</code>", no_info());
    assert_eq!(packs.len(), 1);
    assert_eq!(packs[0].content, "<b>hi</b>\nx\npara\n<tg-spoiler>s</tg-spoiler><code>c&lt;</code>");
    assert!(packs[0].asset.is_empty());
    assert_eq!(packs[0].reply, None);
    let packs = encode("<a href=\"h&amp;\">l</a><pre lang=\"rs\">x</pre><quote>q</quote>", no_info());
    assert_eq!(
        packs[0].content,
        "<a href=\"h&amp;\">l</a><pre><code class=\"language-rs\">x</code></pre><blockquote>q</blockquote>"
    );
}

#[test]
fn encode_mentions() {
    let info = EncoderInfo {
        emojis: vec![(5, vec![DocAttr::Sticker { alt: "🙂".to_string() }])],
        users_by_name: vec![("carl".to_string(), 77)],
        users_by_id: vec![(
            9,
            PeerInfo::User(UserInfo {
                dialog_id: 9,
                username: Some("bob".to_string()),
                full_name: "Bob".to_string(),
                is_bot: false,
                photo_id: None,
                access_hash: None,
            }),
        )],
    };
    let packs = encode(
        "<at id=\"9\"/>|<at id=\"8\" name=\"N\"/>|<at id=\"@carl\"/>|<at id=\"dave\"/>|<emoji id=\"5\"/><emoji id=\"6\"/>",
        info,
    );
    assert_eq!(
        packs[0].content,
        "<a href=\"tg://user?id=9\">@bob</a>|\
         <a href=\"tg://user?id=8\">N</a>|\
         <a href=\"tg://user?id=77\">@carl</a>|\
         <a href=\"tg://user?id=@dave\">@dave</a>|\
         <tg-emoji emoji-id=\"5\">🙂</tg-emoji><tg-emoji emoji-id=\"6\">😀</tg-emoji>"
    );
    let packs = encode("<at id=\"1\"/>", no_info());
    assert_eq!(packs[0].content, "<a href=\"tg://user?id=1\">User</a>");
    let packs = encode("<at id=\"42\" name=\"Bob\"/>", no_info());
    assert_eq!(packs.len(), 1);
    assert_eq!(packs[0].content, "<a href=\"tg://user?id=42\">Bob</a>");
}

#[test]
fn encode_messages_quotes_and_media() {
    let packs = encode("a<quote id=\"3\"/>b<img src=\"x\"/><message>m</message>", no_info());
    assert_eq!(packs.len(), 3);
    assert_eq!(packs[0].content, "a");
    assert_eq!(packs[1].content, "b");
    assert_eq!(packs[1].reply.as_deref(), Some("3"));
    assert_eq!(packs[1].asset.len(), 1);
    assert_eq!(packs[1].asset[0].get_attr_str("src"), Some("x"));
    assert_eq!(packs[2].content, "m");
    let packs = encode("<figure><message>a</message><message>b</message></figure>", no_info());
    assert_eq!(packs.len(), 1);
    assert_eq!(packs[0].content, "a\nb\n");
    assert!(encode("", no_info()).is_empty());
    assert!(encode("<button id=\"x\">only</button>", no_info()).is_empty());
}

#[test]
fn encode_keyboards() {
    let src = "t<button id=\"1\">A</button><button type=\"link\" href=\"u\">L</button>\
               <button type=\"input\" text=\"q\">I</button><button>4</button><button>5</button>\
               <button>6</button><button>7</button>";
    let packs = encode(src, no_info());
    let rows = &packs[0].rows;
    assert_eq!(rows.len(), 2);
    assert_eq!(rows[0].len(), 6);
    assert_eq!(rows[1].len(), 1);
    assert!(matches!(&rows[0][0], InlineButton::Data { text, data } if text == "A" && data == "1"));
    assert!(matches!(&rows[0][1], InlineButton::Url { text, url } if text == "L" && url == "u"));
    assert!(matches!(&rows[0][2], InlineButton::Switch { text, query } if text == "I" && query == "q"));
    assert!(matches!(&rows[0][3], InlineButton::Data { text, data } if text == "4" && data.is_empty()));
    assert!(packs[0].reply_markup().is_some());
    let packs = encode("t<button-group><button>a</button></button-group>", no_info());
    assert_eq!(packs[0].rows.len(), 2);
    assert_eq!(packs[0].rows[0].len(), 1);
    assert!(packs[0].rows[1].is_empty());
    assert!(to_reply_markup(&[]).is_none());
}

#[test]
fn infos_to_look_up() {
    let es = parse(
        "<emoji id=\"5\"/><at id=\"@x\"/><at id=\"9\"/><at id=\"10\" name=\"n\"/>\
         <p><at id=\"-100\"/><at id=\"9\"/><emoji id=\"q\"/><at id=\"-1000000000007\"/><at id=\"0\"/></p>",
    )
    .unwrap();
    let r = info_request(&es);
    assert_eq!(r.emoji_ids, vec![5]);
    assert_eq!(r.usernames, vec!["@x".to_string()]);
    assert_eq!(r.user_ids, vec![9, -100, -1000000000007, 0]);
    assert_eq!(r.users, vec![9]);
    assert_eq!(r.chats, vec![100]);
    assert_eq!(r.channels, vec![7]);
}

#[test]
fn replies_and_plans() {
    assert_eq!(parse_reply(None).ok(), Some(None));
    assert_eq!(parse_reply(Some("12")).ok(), Some(Some(12)));
    let e = parse_reply(Some("x")).err().unwrap();
    assert_eq!((e.code, e.reason.as_str()), (400, "Bad reply id"));
    let mut pack = MessagePack::new();
    let p = plan_pack(&pack, Some(4)).ok().unwrap();
    assert_eq!(p.reply_to, Some(4));
    assert!(p.send == PackSend::Text);
    pack.reply = Some("9".to_string());
    pack.asset = parse("<img src=\"a\"/>").unwrap();
    let p = plan_pack(&pack, Some(4)).ok().unwrap();
    assert_eq!(p.reply_to, Some(9));
    assert!(p.send == PackSend::Album);
    pack.rows = vec![vec![InlineButton::Data { text: "b".to_string(), data: String::new() }]];
    assert!(plan_pack(&pack, None).ok().unwrap().send == PackSend::AlbumThenKeyboard);
    pack.reply = Some("99999999999".to_string());
    assert!(plan_pack(&pack, None).is_err());
}

fn headers<'a>(auth: Option<&'a [u8]>, platform: Option<&'a [u8]>, user: Option<&'a [u8]>) -> AuthHeaders<'a> {
    AuthHeaders { authorization: auth, satori_platform: platform, x_platform: None, satori_user_id: user, x_self_id: None }
}

#[test]
fn authorization_decisions() {
    assert!(check_authorization(b"Bearer tok", "tok"));
    assert!(!check_authorization(b"Bearer tok2", "tok"));
    assert!(!check_authorization(b"bearer tok", "tok"));
    assert!(check_authorization(b"Bearer ", ""));
    let m = SatoriAuthorization.create(());
    let ok = headers(Some(b"Bearer t"), Some(b"telegram"), Some(b"5"));
    assert!(matches!(m.authorize("/satori/", "t", "/satori/v1/message.get", &ok, 5), AuthOutcome::Pass));
    assert!(matches!(m.authorize("/satori", "t", "/other", &headers(None, None, None), 5), AuthOutcome::Pass));
    let r = |h: &AuthHeaders| match m.authorize("/", "t", "/v1/login.get", h, 5) {
        AuthOutcome::Pass => None,
        AuthOutcome::Unauthorized(r) => Some(r),
    };
    assert!(r(&headers(None, None, None)) == Some(UnauthorizedReason::NoAuthorization));
    assert!(r(&headers(Some(b"Bearer x"), None, None)) == Some(UnauthorizedReason::InvalidAuthorization));
    assert!(r(&headers(Some(b"Bearer t"), None, None)) == Some(UnauthorizedReason::NoPlatform));
    assert!(r(&headers(Some(b"Bearer t"), Some(b"discord"), None)) == Some(UnauthorizedReason::InvalidPlatform));
    assert!(r(&headers(Some(b"Bearer t"), Some(b"telegram"), None)) == Some(UnauthorizedReason::NoUserId));
    assert!(r(&headers(Some(b"Bearer t"), Some(b"telegram"), Some(b"6"))) == Some(UnauthorizedReason::InvalidUserId));
    assert!(matches!(m.authorize("/", "t", "/v1/events", &headers(None, None, None), 5), AuthOutcome::Pass));
    assert!(matches!(m.authorize("/", "t", "/v1/proxy/x", &headers(None, None, None), 5), AuthOutcome::Pass));
    assert!(matches!(
        m.authorize("/", "t", "/v1/meta/x", &headers(None, None, None), 5),
        AuthOutcome::Unauthorized(UnauthorizedReason::NoAuthorization)
    ));
    assert!(matches!(
        m.authorize("/", "", "/v1/meta/x", &headers(None, None, None), 5),
        AuthOutcome::Pass
    ));
    assert_eq!(UnauthorizedReason::NoUserId.detail(), "No user ID header provided.");
}
