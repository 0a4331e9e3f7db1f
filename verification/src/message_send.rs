use vstd::prelude::*;

use crate::element::{element_view, elements_view, strip_view, AttrView, Element, ElementView};
use crate::entities::{escape, escape_spec};
use crate::telegram::{last_sticker_alt, sticker_alt, DocAttr, PeerInfo};
use crate::entities::escape_into;
use crate::text::{
    append_chars, append_str, chars_of, int_decimal, parse_i64, push_chars, push_i64_decimal,
    push_str, spec_parse_i32, spec_parse_i64, str_eq, string_of,
};

verus! {

/// A button of an inline keyboard: it opens a link, fills the input with text, or
/// sends data back.
pub enum InlineButton {
    Url { text: String, url: String },
    Switch { text: String, query: String },
    Data { text: String, data: String },
}

/// The value of a button.
pub enum ButtonView {
    Url { text: Seq<char>, url: Seq<char> },
    Switch { text: Seq<char>, query: Seq<char> },
    Data { text: Seq<char>, data: Seq<char> },
}

impl InlineButton {
    pub open spec fn view(&self) -> ButtonView {
        match self {
            InlineButton::Url { text, url } => ButtonView::Url { text: text@, url: url@ },
            InlineButton::Switch { text, query } => ButtonView::Switch { text: text@, query: query@ },
            InlineButton::Data { text, data } => ButtonView::Data { text: text@, data: data@ },
        }
    }
}

pub open spec fn row_view(row: Seq<InlineButton>) -> Seq<ButtonView> {
    row.map_values(|b: InlineButton| b.view())
}

pub open spec fn rows_view(rows: Seq<Vec<InlineButton>>) -> Seq<Seq<ButtonView>> {
    rows.map_values(|r: Vec<InlineButton>| row_view(r@))
}

/// One Telegram message to send: HTML text, media, the message it replies to, and the
/// rows of its inline keyboard.
pub struct MessagePack {
    pub content: String,
    pub asset: Vec<Element>,
    pub reply: Option<String>,
    pub rows: Vec<Vec<InlineButton>>,
}

/// The value of a message to send.
pub struct PackView {
    pub content: Seq<char>,
    pub asset: Seq<ElementView>,
    pub reply: Option<Seq<char>>,
    pub rows: Seq<Seq<ButtonView>>,
}

impl MessagePack {
    pub open spec fn view(&self) -> PackView {
        PackView {
            content: self.content@,
            asset: elements_view(self.asset@),
            reply: match self.reply {
                Some(r) => Some(r@),
                None => None,
            },
            rows: rows_view(self.rows@),
        }
    }

    /// An empty message.
    pub fn new() -> (p: MessagePack)
        ensures
            p.view() == empty_pack(),
    {
        let p = MessagePack { content: String::new(), asset: Vec::new(), reply: None, rows: Vec::new() };
        assert(elements_view(p.asset@) =~= Seq::<ElementView>::empty());
        assert(rows_view(p.rows@) =~= Seq::<Seq<ButtonView>>::empty());
        p
    }

    /// The rows of the inline keyboard of the message; `None` where it has no rows.
    pub fn reply_markup(&self) -> (r: Option<&[Vec<InlineButton>]>)
        ensures
            match r {
                Some(rows) => self.rows@.len() > 0 && rows@ == self.rows@,
                None => self.rows@.len() == 0,
            },
    {
        to_reply_markup(self.rows.as_slice())
    }
}

pub open spec fn empty_pack() -> PackView {
    PackView { content: Seq::empty(), asset: Seq::empty(), reply: None, rows: Seq::empty() }
}

/// The rows of an inline keyboard; `None` where there are none.
pub fn to_reply_markup(rows: &[Vec<InlineButton>]) -> (r: Option<&[Vec<InlineButton>]>)
    ensures
        match r {
            Some(rs) => rows@.len() > 0 && rs@ == rows@,
            None => rows@.len() == 0,
        },
{
    if rows.len() == 0 {
        None
    } else {
        Some(rows)
    }
}

/// What the encoder knows of the custom emojis and the users that the markup names:
/// the attributes of each emoji document by its id, the dialog id of each username,
/// and each peer by its dialog id.
pub struct EncoderInfo {
    pub emojis: Vec<(i64, Vec<DocAttr>)>,
    pub users_by_name: Vec<(String, i64)>,
    pub users_by_id: Vec<(i64, PeerInfo)>,
}

/// The alternative text of the custom emoji with the given id, from the first entry for it.
pub open spec fn emoji_name_spec(emojis: Seq<(i64, Vec<DocAttr>)>, id: i64) -> Option<Seq<char>>
    decreases emojis.len(),
{
    if emojis.len() == 0 {
        None
    } else if emojis[0].0 == id {
        last_sticker_alt(emojis[0].1@)
    } else {
        emoji_name_spec(emojis.drop_first(), id)
    }
}

/// The name to show for a peer: `@` and its username, else a non-empty full name of a
/// user, the title of a group where it has one, or the title of a channel.
pub open spec fn peer_display_name(p: PeerInfo) -> Option<Seq<char>> {
    match p.username() {
        Some(u) => Some(seq!['@'] + u@),
        None => match p {
            PeerInfo::User(u) => if u.full_name@.len() == 0 {
                None
            } else {
                Some(u.full_name@)
            },
            PeerInfo::Group(g) => match g.title {
                Some(t) => Some(t@),
                None => None,
            },
            PeerInfo::Channel(c) => Some(c.title@),
        },
    }
}

/// The name to show for the peer with the given dialog id, from the first entry for it.
pub open spec fn user_name_spec(users: Seq<(i64, PeerInfo)>, id: i64) -> Option<Seq<char>>
    decreases users.len(),
{
    if users.len() == 0 {
        None
    } else if users[0].0 == id {
        peer_display_name(users[0].1)
    } else {
        user_name_spec(users.drop_first(), id)
    }
}

/// The dialog id of the given username, from the first entry for it.
pub open spec fn user_id_spec(users: Seq<(String, i64)>, name: Seq<char>) -> Option<i64>
    decreases users.len(),
{
    if users.len() == 0 {
        None
    } else if users[0].0@ == name {
        Some(users[0].1)
    } else {
        user_id_spec(users.drop_first(), name)
    }
}

/// The state of the encoder: the messages done, the message being written, and whether
/// a `figure` was met (then a `message` does not start a new one).
pub struct EncState {
    pub packs: Seq<PackView>,
    pub current: PackView,
    pub figure: bool,
}

pub open spec fn append_text(st: EncState, s: Seq<char>) -> EncState {
    EncState { current: PackView { content: st.current.content + s, ..st.current }, ..st }
}

pub open spec fn ends_with_newline(s: Seq<char>) -> bool {
    s.len() > 0 && s.last() == '\n'
}

/// A line break unless the text already ends with one.
pub open spec fn ensure_newline(st: EncState) -> EncState {
    if ends_with_newline(st.current.content) {
        st
    } else {
        append_text(st, seq!['\n'])
    }
}

/// The message being written is done, unless it has neither text nor media.
pub open spec fn flush_spec(st: EncState) -> EncState {
    if st.current.content.len() == 0 && st.current.asset.len() == 0 {
        st
    } else {
        EncState { packs: st.packs.push(st.current), current: empty_pack(), ..st }
    }
}

pub open spec fn push_row(st: EncState) -> EncState {
    EncState { current: PackView { rows: st.current.rows.push(Seq::empty()), ..st.current }, ..st }
}

/// A link that mentions a user.
pub open spec fn mention_link(id: Seq<char>, display: Seq<char>) -> Seq<char> {
    "<a href=\"tg://user?id="@ + id + "\">"@ + escape_spec(display, false) + "</a>"@
}

/// A tag that becomes the same HTML tag.
pub open spec fn is_format_tag(tag: Seq<char>) -> bool {
    tag == "b"@ || tag == "strong"@ || tag == "i"@ || tag == "em"@ || tag == "u"@ || tag == "ins"@
        || tag == "s"@ || tag == "del"@
}

/// A tag of a media element.
pub open spec fn is_media_tag(tag: Seq<char>) -> bool {
    tag == "img"@ || tag == "image"@ || tag == "audio"@ || tag == "video"@ || tag == "file"@
}

pub open spec fn attr_or_empty(e: ElementView, key: Seq<char>) -> Seq<char> {
    match e.attr_str(key) {
        Some(v) => v,
        None => Seq::empty(),
    }
}

/// The button that a `button` element makes: `type="link"` opens `href`,
/// `type="input"` fills in `text`, anything else sends `id`; its label is the text of
/// the element.
pub open spec fn button_of(e: ElementView) -> ButtonView {
    let label = strip_view(e);
    match e.attr_str("type"@) {
        Some(t) => if t == "link"@ {
            ButtonView::Url { text: label, url: attr_or_empty(e, "href"@) }
        } else if t == "input"@ {
            ButtonView::Switch { text: label, query: attr_or_empty(e, "text"@) }
        } else {
            ButtonView::Data { text: label, data: attr_or_empty(e, "id"@) }
        },
        None => ButtonView::Data { text: label, data: attr_or_empty(e, "id"@) },
    }
}

/// A button added to the last row (a first row made where there is none, a new row
/// started when the last one holds more than five).
pub open spec fn add_button(st: EncState, b: ButtonView) -> EncState {
    let rows0 = if st.current.rows.len() == 0 {
        seq![Seq::<ButtonView>::empty()]
    } else {
        st.current.rows
    };
    let rows1 = if rows0.last().len() > 5 {
        rows0.push(Seq::empty())
    } else {
        rows0
    };
    EncState {
        current: PackView { rows: rows1.update(rows1.len() - 1, rows1.last().push(b)), ..st.current },
        ..st
    }
}

/// How the encoder takes in an `at` element: one mention link to the user, by numeric
/// id or by username.
pub open spec fn at_spec(info: EncoderInfo, st: EncState, e: ElementView) -> EncState {
    match e.attr_str("id"@) {
        None => st,
        Some(id) => match spec_parse_i64(id) {
            Some(n) => {
                let display = match e.attr_str("name"@) {
                    Some(nm) => nm,
                    None => match user_name_spec(info.users_by_id@, n) {
                        Some(u) => u,
                        None => "User"@,
                    },
                };
                append_text(st, mention_link(int_decimal(n as int), display))
            },
            None => {
                let username = if id.len() > 0 && id[0] == '@' {
                    id.drop_first()
                } else {
                    id
                };
                let target = match user_id_spec(info.users_by_name@, username) {
                    Some(n) => int_decimal(n as int),
                    None => escape_spec(seq!['@'] + username, true),
                };
                let display = match e.attr_str("name"@) {
                    Some(nm) => nm,
                    None => seq!['@'] + username,
                };
                append_text(st, mention_link(target, display))
            },
        },
    }
}

/// How the encoder takes in an `emoji` element: a custom emoji by its numeric id.
pub open spec fn emoji_spec(info: EncoderInfo, st: EncState, e: ElementView) -> EncState {
    match e.attr_str("id"@) {
        None => st,
        Some(id) => match spec_parse_i64(id) {
            None => st,
            Some(n) => {
                let name = match e.attr_str("name"@) {
                    Some(nm) => nm,
                    None => match emoji_name_spec(info.emojis@, n) {
                        Some(a) => a,
                        None => seq!['\u{1f600}'],
                    },
                };
                append_text(
                    st,
                    "<tg-emoji emoji-id=\""@ + int_decimal(n as int) + "\">"@ + escape_spec(name, false)
                        + "</tg-emoji>"@,
                )
            },
        },
    }
}

/// How the encoder takes in one element.
pub open spec fn visit_spec(info: EncoderInfo, st: EncState, e: ElementView) -> EncState
    decreases e,
{
    let tag = e.tag;
    if e.is_text() {
        append_text(st, escape_spec(e.text().unwrap(), false))
    } else if tag == "br"@ {
        append_text(st, seq!['\n'])
    } else if tag == "p"@ {
        ensure_newline(render_spec(info, ensure_newline(st), e.children))
    } else if tag == "a"@ {
        let open = match e.attr_str("href"@) {
            Some(h) => "<a href=\""@ + escape_spec(h, true) + "\">"@,
            None => "<a>"@,
        };
        append_text(render_spec(info, append_text(st, open), e.children), "</a>"@)
    } else if is_format_tag(tag) {
        append_text(render_spec(info, append_text(st, seq!['<'] + tag + seq!['>']), e.children), seq!['<', '/'] + tag + seq!['>'])
    } else if tag == "spl"@ {
        append_text(render_spec(info, append_text(st, "<tg-spoiler>"@), e.children), "</tg-spoiler>"@)
    } else if tag == "code"@ {
        let st1 = append_text(st, "<code>"@);
        let st2 = match e.attr_str("content"@) {
            Some(c) => append_text(st1, escape_spec(c, false)),
            None => render_spec(info, st1, e.children),
        };
        append_text(st2, "</code>"@)
    } else if tag == "pre"@ || tag == "code-block"@ {
        let open = match e.attr_str("lang"@) {
            Some(l) => "<pre><code class=\"language-"@ + escape_spec(l, true) + "\">"@,
            None => "<pre><code>"@,
        };
        append_text(render_spec(info, append_text(st, open), e.children), "</code></pre>"@)
    } else if tag == "at"@ {
        at_spec(info, st, e)
    } else if tag == "emoji"@ {
        emoji_spec(info, st, e)
    } else if is_media_tag(tag) {
        EncState { current: PackView { asset: st.current.asset.push(e), ..st.current }, ..st }
    } else if tag == "figure"@ {
        flush_spec(render_spec(info, EncState { figure: true, ..flush_spec(st) }, e.children))
    } else if tag == "quote"@ {
        match e.attr_str("id"@) {
            Some(id) => {
                let s1 = flush_spec(st);
                EncState { current: PackView { reply: Some(id), ..s1.current }, ..s1 }
            },
            None => append_text(render_spec(info, append_text(st, "<blockquote>"@), e.children), "</blockquote>"@),
        }
    } else if tag == "button"@ {
        add_button(st, button_of(e))
    } else if tag == "button-group"@ {
        push_row(render_spec(info, push_row(st), e.children))
    } else if tag == "message"@ {
        if st.figure {
            append_text(render_spec(info, st, e.children), seq!['\n'])
        } else {
            flush_spec(render_spec(info, flush_spec(st), e.children))
        }
    } else {
        render_spec(info, st, e.children)
    }
}

/// How the encoder takes in a sequence of elements, one after the other.
pub open spec fn render_spec(info: EncoderInfo, st: EncState, es: Seq<ElementView>) -> EncState
    decreases es,
{
    if es.len() == 0 {
        st
    } else {
        visit_spec(info, render_spec(info, st, es.drop_last()), es.last())
    }
}


/// A formatting tag of Satori (`b`, `strong`, `i`, `em`, `u`, `ins`, `s`, `del`) around a
/// text becomes the same HTML tag around the escaped text, in the message being written;
/// nothing else of the state changes.
pub proof fn lemma_format_tag_kept(info: EncoderInfo, st: EncState, t: Seq<char>, x: Seq<char>)
    requires
        t == "b"@ || t == "strong"@ || t == "i"@ || t == "em"@ || t == "u"@ || t == "ins"@ || t == "s"@
            || t == "del"@,
    ensures
        visit_spec(
            info,
            st,
            ElementView { tag: t, attrs: Seq::empty(), children: seq![crate::markup::text_view(x)] },
        ) == (EncState {
            current: PackView {
                content: st.current.content + seq!['<'] + t + seq!['>'] + escape_spec(x, false) + seq!['<', '/']
                    + t + seq!['>'],
                ..st.current
            },
            ..st
        }),
{
    reveal_strlit("b");
    reveal_strlit("strong");
    reveal_strlit("i");
    reveal_strlit("em");
    reveal_strlit("u");
    reveal_strlit("ins");
    reveal_strlit("s");
    reveal_strlit("del");
    reveal_strlit("br");
    reveal_strlit("p");
    reveal_strlit("a");
    let tn = crate::markup::text_view(x);
    let e = ElementView { tag: t, attrs: Seq::empty(), children: seq![tn] };
    assert(t != crate::element::text_tag());
    assert(!e.is_text());
    assert("p"@.len() == 1 && "p"@[0] == 'p');
    assert("a"@.len() == 1 && "a"@[0] == 'a');
    assert("br"@.len() == 2 && "br"@[1] == 'r');
    assert(t.len() != 2 || t[1] != 'r');
    assert(t.len() != 1 || (t[0] != 'p' && t[0] != 'a'));
    assert(t != "br"@ && t != "p"@ && t != "a"@);
    assert(is_format_tag(t));
    let s1 = append_text(st, seq!['<'] + t + seq!['>']);
    assert(e.children.drop_last() =~= Seq::<ElementView>::empty());
    assert(e.children.last() == tn);
    assert(render_spec(info, s1, e.children) == visit_spec(info, s1, tn));
    assert(tn.is_text());
    assert(tn.text() == Some(x));
    let s2 = append_text(s1, escape_spec(x, false));
    assert(visit_spec(info, s1, tn) == s2);
    assert(st.current.content + (seq!['<'] + t + seq!['>']) + escape_spec(x, false) + (seq!['<', '/'] + t
        + seq!['>']) =~= st.current.content + seq!['<'] + t + seq!['>'] + escape_spec(x, false) + seq!['<', '/']
        + t + seq!['>']);
}

/// The first and the last character and the length of each tag the encoder reads, which
/// tell the tags apart.
proof fn lemma_tag_literals()
    ensures
        "br"@.len() == 2 && "br"@[0] == 'b' && "br"@[1] == 'r',
        "p"@.len() == 1 && "p"@[0] == 'p' && "p"@[0] == 'p',
        "a"@.len() == 1 && "a"@[0] == 'a' && "a"@[0] == 'a',
        "b"@.len() == 1 && "b"@[0] == 'b' && "b"@[0] == 'b',
        "strong"@.len() == 6 && "strong"@[0] == 's' && "strong"@[5] == 'g',
        "i"@.len() == 1 && "i"@[0] == 'i' && "i"@[0] == 'i',
        "em"@.len() == 2 && "em"@[0] == 'e' && "em"@[1] == 'm',
        "u"@.len() == 1 && "u"@[0] == 'u' && "u"@[0] == 'u',
        "ins"@.len() == 3 && "ins"@[0] == 'i' && "ins"@[2] == 's',
        "s"@.len() == 1 && "s"@[0] == 's' && "s"@[0] == 's',
        "del"@.len() == 3 && "del"@[0] == 'd' && "del"@[2] == 'l',
        "spl"@.len() == 3 && "spl"@[0] == 's' && "spl"@[2] == 'l',
        "code"@.len() == 4 && "code"@[0] == 'c' && "code"@[3] == 'e',
        "pre"@.len() == 3 && "pre"@[0] == 'p' && "pre"@[2] == 'e',
        "code-block"@.len() == 10 && "code-block"@[0] == 'c' && "code-block"@[9] == 'k',
        "at"@.len() == 2 && "at"@[0] == 'a' && "at"@[1] == 't',
        "emoji"@.len() == 5 && "emoji"@[0] == 'e' && "emoji"@[4] == 'i',
        "img"@.len() == 3 && "img"@[0] == 'i' && "img"@[2] == 'g',
        "image"@.len() == 5 && "image"@[0] == 'i' && "image"@[4] == 'e',
        "audio"@.len() == 5 && "audio"@[0] == 'a' && "audio"@[4] == 'o',
        "video"@.len() == 5 && "video"@[0] == 'v' && "video"@[4] == 'o',
        "file"@.len() == 4 && "file"@[0] == 'f' && "file"@[3] == 'e',
        "figure"@.len() == 6 && "figure"@[0] == 'f' && "figure"@[5] == 'e',
        "quote"@.len() == 5 && "quote"@[0] == 'q' && "quote"@[4] == 'e',
        "button"@.len() == 6 && "button"@[0] == 'b' && "button"@[5] == 'n',
        "button-group"@.len() == 12 && "button-group"@[0] == 'b' && "button-group"@[11] == 'p',
        "message"@.len() == 7 && "message"@[0] == 'm' && "message"@[6] == 'e',
        crate::element::text_tag().len() == 4 && crate::element::text_tag()[0] == 't' && crate::element::text_tag()[3] == 't',
{
    reveal_strlit("br");
    reveal_strlit("p");
    reveal_strlit("a");
    reveal_strlit("b");
    reveal_strlit("strong");
    reveal_strlit("i");
    reveal_strlit("em");
    reveal_strlit("u");
    reveal_strlit("ins");
    reveal_strlit("s");
    reveal_strlit("del");
    reveal_strlit("spl");
    reveal_strlit("code");
    reveal_strlit("pre");
    reveal_strlit("code-block");
    reveal_strlit("at");
    reveal_strlit("emoji");
    reveal_strlit("img");
    reveal_strlit("image");
    reveal_strlit("audio");
    reveal_strlit("video");
    reveal_strlit("file");
    reveal_strlit("figure");
    reveal_strlit("quote");
    reveal_strlit("button");
    reveal_strlit("button-group");
    reveal_strlit("message");
}

/// The other tags around a text, without attributes, become their HTML in the message
/// being written, around the escaped text: `spl` a spoiler, `code` inline code, `pre` and
/// `code-block` a code block, `quote` a block quote, `a` a link without target; nothing
/// else of the state changes.
pub proof fn lemma_wrapper_tag(info: EncoderInfo, st: EncState, t: Seq<char>, x: Seq<char>)
    requires
        t == "spl"@ || t == "code"@ || t == "pre"@ || t == "code-block"@ || t == "quote"@ || t == "a"@,
    ensures
        ({
            let (open, close) = if t == "spl"@ {
                ("<tg-spoiler>"@, "</tg-spoiler>"@)
            } else if t == "code"@ {
                ("<code>"@, "</code>"@)
            } else if t == "quote"@ {
                ("<blockquote>"@, "</blockquote>"@)
            } else if t == "a"@ {
                ("<a>"@, "</a>"@)
            } else {
                ("<pre><code>"@, "</code></pre>"@)
            };
            visit_spec(
                info,
                st,
                ElementView { tag: t, attrs: Seq::empty(), children: seq![crate::markup::text_view(x)] },
            ) == (EncState {
                current: PackView { content: st.current.content + open + escape_spec(x, false) + close, ..st.current },
                ..st
            })
        }),
{
    lemma_tag_literals();
    let tn = crate::markup::text_view(x);
    let e = ElementView { tag: t, attrs: Seq::empty(), children: seq![tn] };
    assert(!e.is_text());
    assert(!is_format_tag(t));
    assert(e.children.drop_last() =~= Seq::<ElementView>::empty());
    assert(e.children.last() == tn);
    assert(tn.is_text());
    assert(tn.text() == Some(x));
    assert(e.attr_str("href"@) is None);
    assert(e.attr_str("content"@) is None);
    assert(e.attr_str("id"@) is None);
    assert(e.attr_str("lang"@) is None);
    assert forall|s1: EncState| render_spec(info, s1, e.children) == append_text(s1, escape_spec(x, false)) by {
        assert(render_spec(info, s1, e.children) == visit_spec(info, s1, tn));
    }
    let c0 = st.current.content;
    let ex = escape_spec(x, false);
    if t == "spl"@ {
        let o = "<tg-spoiler>"@;
        assert(t != "br"@ && t != "p"@ && t != "a"@);
        assert(visit_spec(info, st, e) == append_text(render_spec(info, append_text(st, o), e.children), "</tg-spoiler>"@));
    } else if t == "code"@ {
        assert(t != "br"@ && t != "p"@ && t != "a"@ && t != "spl"@);
        assert(visit_spec(info, st, e) == append_text(render_spec(info, append_text(st, "<code>"@), e.children), "</code>"@));
    } else if t == "quote"@ {
        assert(t != "br"@ && t != "p"@ && t != "a"@ && t != "spl"@ && t != "code"@ && t != "pre"@ && t != "code-block"@
            && t != "at"@ && t != "emoji"@ && !is_media_tag(t) && t != "figure"@);
        assert(visit_spec(info, st, e) == append_text(render_spec(info, append_text(st, "<blockquote>"@), e.children), "</blockquote>"@));
    } else if t == "a"@ {
        assert(t != "br"@ && t != "p"@);
        assert(visit_spec(info, st, e) == append_text(render_spec(info, append_text(st, "<a>"@), e.children), "</a>"@));
    } else {
        assert(t != "br"@ && t != "p"@ && t != "a"@ && t != "spl"@ && t != "code"@);
        assert(visit_spec(info, st, e) == append_text(render_spec(info, append_text(st, "<pre><code>"@), e.children), "</code></pre>"@));
    }
    assert forall|o: Seq<char>, c: Seq<char>| c0 + o + ex + c =~= c0 + o + ex + c by {}
}

/// A line break adds a line feed to the message being written.
pub proof fn lemma_br(info: EncoderInfo, st: EncState)
    ensures
        visit_spec(info, st, ElementView { tag: "br"@, attrs: Seq::empty(), children: Seq::empty() }) == (
        EncState { current: PackView { content: st.current.content + seq!['\n'], ..st.current }, ..st }),
{
    lemma_tag_literals();
}

/// A media element (`img`, `image`, `audio`, `video`, `file`) is attached as it is to the
/// message being written, after its other media; nothing else changes.
pub proof fn lemma_media_asset(info: EncoderInfo, st: EncState, e: ElementView)
    requires
        e.tag == "img"@ || e.tag == "image"@ || e.tag == "audio"@ || e.tag == "video"@ || e.tag == "file"@,
    ensures
        visit_spec(info, st, e) == (EncState {
            current: PackView { asset: st.current.asset.push(e), ..st.current },
            ..st
        }),
{
    lemma_tag_literals();
    assert(!e.is_text());
    assert(!is_format_tag(e.tag));
    assert(is_media_tag(e.tag));
}

/// A mention of a user by numeric id with a name writes one link to the user, showing the
/// escaped name, into the message being written; nothing else changes.
pub proof fn lemma_at_mention(info: EncoderInfo, st: EncState, n: i64, name: Seq<char>)
    ensures
        visit_spec(
            info,
            st,
            ElementView {
                tag: "at"@,
                attrs: seq![("id"@, AttrView::Str(int_decimal(n as int))), ("name"@, AttrView::Str(name))],
                children: Seq::empty(),
            },
        ) == (EncState {
            current: PackView {
                content: st.current.content + "<a href=\"tg://user?id="@ + int_decimal(n as int) + "\">"@
                    + escape_spec(name, false) + "</a>"@,
                ..st.current
            },
            ..st
        }),
{
    lemma_tag_literals();
    reveal_strlit("id");
    reveal_strlit("name");
    let e = ElementView {
        tag: "at"@,
        attrs: seq![("id"@, AttrView::Str(int_decimal(n as int))), ("name"@, AttrView::Str(name))],
        children: Seq::empty(),
    };
    assert(!e.is_text());
    assert(!is_format_tag(e.tag));
    assert("id"@.len() == 2 && "name"@.len() == 4);
    assert("id"@ != "name"@);
    assert(e.attrs.drop_first() =~= seq![("name"@, AttrView::Str(name))]);
    assert(crate::element::attrs_lookup(e.attrs.drop_first(), "name"@) == Some(AttrView::Str(name)));
    assert(e.attr_str("id"@) == Some(int_decimal(n as int)));
    assert(e.attr_str("name"@) == Some(name));
    crate::text::lemma_parse_i64_decimal(n);
    let link = mention_link(int_decimal(n as int), name);
    assert(st.current.content + link =~= st.current.content + "<a href=\"tg://user?id="@ + int_decimal(n as int)
        + "\">"@ + escape_spec(name, false) + "</a>"@);
}

/// Outside a `figure`, a `message` around a text is a message of its own: the message
/// being written is done first (where it holds text), then the text is a message alone,
/// and a fresh message follows.
pub proof fn lemma_message_split(info: EncoderInfo, st: EncState, x: Seq<char>)
    requires
        !st.figure,
        x.len() > 0,
        st.current.content.len() > 0,
    ensures
        visit_spec(
            info,
            st,
            ElementView { tag: "message"@, attrs: Seq::empty(), children: seq![crate::markup::text_view(x)] },
        ) == (EncState {
            packs: st.packs.push(st.current).push(
                PackView { content: escape_spec(x, false), asset: Seq::empty(), reply: None, rows: Seq::empty() },
            ),
            current: PackView { content: Seq::empty(), asset: Seq::empty(), reply: None, rows: Seq::empty() },
            figure: false,
        }),
{
    lemma_tag_literals();
    let tn = crate::markup::text_view(x);
    let e = ElementView { tag: "message"@, attrs: Seq::empty(), children: seq![tn] };
    assert(!e.is_text());
    assert(!is_format_tag(e.tag));
    assert(!is_media_tag(e.tag));
    assert(e.children.drop_last() =~= Seq::<ElementView>::empty());
    assert(e.children.last() == tn);
    assert(tn.is_text());
    assert(tn.text() == Some(x));
    let s1 = flush_spec(st);
    assert(s1.current == empty_pack());
    let s2 = render_spec(info, s1, e.children);
    assert(s2 == visit_spec(info, s1, tn));
    assert(s2 == append_text(s1, escape_spec(x, false)));
    assert(escape_spec(x, false).len() > 0) by {
        assert(escape_spec(x, false) == escape_spec(x.drop_last(), false) + crate::entities::escape_char(x.last(), false));
    }
    assert(Seq::<char>::empty() + escape_spec(x, false) =~= escape_spec(x, false));
}

/// A `quote` with an id makes the message being written done (where it holds text) and
/// starts a fresh one that replies to that message.
pub proof fn lemma_quote_reply(info: EncoderInfo, st: EncState, id: Seq<char>)
    requires
        st.current.content.len() > 0,
    ensures
        visit_spec(
            info,
            st,
            ElementView { tag: "quote"@, attrs: seq![("id"@, AttrView::Str(id))], children: Seq::empty() },
        ) == (EncState {
            packs: st.packs.push(st.current),
            current: PackView { content: Seq::empty(), asset: Seq::empty(), reply: Some(id), rows: Seq::empty() },
            figure: st.figure,
        }),
{
    lemma_tag_literals();
    let e = ElementView { tag: "quote"@, attrs: seq![("id"@, AttrView::Str(id))], children: Seq::empty() };
    assert(!e.is_text());
    assert(!is_format_tag(e.tag));
    assert(!is_media_tag(e.tag));
    assert(e.attr_str("id"@) == Some(id));
}

/// The buttons of a keyboard: a `link` button opens its `href`, an `input` button fills in
/// its `text`, any other button sends its `id`; each is labelled with the text inside it.
/// A button goes into the last row of the keyboard of the message being written, unless
/// that row holds six already (then into a new row); a first row is made where there is
/// none.
pub proof fn lemma_buttons(info: EncoderInfo, st: EncState, label: Seq<char>, v: Seq<char>, b: ButtonView)
    ensures
        button_of(
            ElementView {
                tag: "button"@,
                attrs: seq![("type"@, AttrView::Str("link"@)), ("href"@, AttrView::Str(v))],
                children: seq![crate::markup::text_view(label)],
            },
        ) == (ButtonView::Url { text: label, url: v }),
        button_of(
            ElementView {
                tag: "button"@,
                attrs: seq![("type"@, AttrView::Str("input"@)), ("text"@, AttrView::Str(v))],
                children: seq![crate::markup::text_view(label)],
            },
        ) == (ButtonView::Switch { text: label, query: v }),
        button_of(
            ElementView {
                tag: "button"@,
                attrs: seq![("id"@, AttrView::Str(v))],
                children: seq![crate::markup::text_view(label)],
            },
        ) == (ButtonView::Data { text: label, data: v }),
        st.current.rows.len() == 0 ==> add_button(st, b).current.rows == seq![seq![b]],
        st.current.rows.len() > 0 && st.current.rows.last().len() < 6 ==> add_button(st, b).current.rows
            == st.current.rows.update(st.current.rows.len() - 1, st.current.rows.last().push(b)),
        st.current.rows.len() > 0 && st.current.rows.last().len() >= 6 ==> add_button(st, b).current.rows
            == st.current.rows.push(seq![b]),
        add_button(st, b).packs == st.packs && add_button(st, b).current.content == st.current.content
            && add_button(st, b).current.asset == st.current.asset,
{
    lemma_tag_literals();
    reveal_strlit("type");
    reveal_strlit("href");
    reveal_strlit("text");
    reveal_strlit("id");
    reveal_strlit("link");
    reveal_strlit("input");
    assert("type"@.len() == 4 && "type"@[0] == 't' && "type"@[1] == 'y');
    assert("href"@.len() == 4 && "href"@[0] == 'h');
    assert("text"@.len() == 4 && "text"@[0] == 't' && "text"@[1] == 'e');
    assert("id"@.len() == 2);
    assert("link"@.len() == 4 && "input"@.len() == 5);
    assert("type"@ != "href"@ && "type"@ != "text"@ && "type"@ != "id"@);
    assert("link"@ != "input"@);
    let tn = crate::markup::text_view(label);
    crate::element::lemma_strip_concat(Seq::empty(), Seq::empty(), tn, label);
    assert(tn.is_text());
    assert(tn.text() == Some(label));
    let a1 = seq![("type"@, AttrView::Str("link"@)), ("href"@, AttrView::Str(v))];
    let a2 = seq![("type"@, AttrView::Str("input"@)), ("text"@, AttrView::Str(v))];
    let a3 = seq![("id"@, AttrView::Str(v))];
    assert(a1.drop_first() =~= seq![("href"@, AttrView::Str(v))]);
    assert(a2.drop_first() =~= seq![("text"@, AttrView::Str(v))]);
    assert(a3.drop_first() =~= Seq::<(Seq<char>, AttrView)>::empty());
    assert(crate::element::attrs_lookup(a1.drop_first(), "href"@) == Some(AttrView::Str(v)));
    assert(crate::element::attrs_lookup(a2.drop_first(), "text"@) == Some(AttrView::Str(v)));
    assert(crate::element::attrs_lookup(a3.drop_first(), "type"@) is None);
    assert(crate::element::attrs_lookup(a3, "type"@) is None);
    let e1 = ElementView { tag: "button"@, attrs: a1, children: seq![tn] };
    assert(!e1.is_text());
    assert(strip_view(e1) == label);
    let e2 = ElementView { tag: "button"@, attrs: a2, children: seq![tn] };
    assert(!e2.is_text());
    assert(strip_view(e2) == label);
    let e3 = ElementView { tag: "button"@, attrs: a3, children: seq![tn] };
    assert(!e3.is_text());
    assert(strip_view(e3) == label);
    assert(seq![Seq::<ButtonView>::empty()].last() == Seq::<ButtonView>::empty());
    assert(seq![Seq::<ButtonView>::empty()].update(0, Seq::<ButtonView>::empty().push(b)) =~= seq![seq![b]]);
    assert(Seq::<ButtonView>::empty().push(b) =~= seq![b]);
    if st.current.rows.len() > 0 && st.current.rows.last().len() >= 6 {
        let r1 = st.current.rows.push(Seq::<ButtonView>::empty());
        assert(r1.update(r1.len() - 1, r1.last().push(b)) =~= st.current.rows.push(seq![b]));
    }
}

/// A link with a target wraps the escaped text in `<a href="...">`, the target escaped for
/// an attribute; a custom emoji with a numeric id and a name becomes `<tg-emoji>` with that
/// id around the escaped name.
pub proof fn lemma_link_and_emoji(info: EncoderInfo, st: EncState, h: Seq<char>, x: Seq<char>, n: i64, name: Seq<char>)
    ensures
        visit_spec(
            info,
            st,
            ElementView {
                tag: "a"@,
                attrs: seq![("href"@, AttrView::Str(h))],
                children: seq![crate::markup::text_view(x)],
            },
        ).current.content == st.current.content + "<a href=\""@ + escape_spec(h, true) + "\">"@ + escape_spec(x, false)
            + "</a>"@,
        visit_spec(
            info,
            st,
            ElementView {
                tag: "emoji"@,
                attrs: seq![("id"@, AttrView::Str(int_decimal(n as int))), ("name"@, AttrView::Str(name))],
                children: Seq::empty(),
            },
        ).current.content == st.current.content + "<tg-emoji emoji-id=\""@ + int_decimal(n as int) + "\">"@
            + escape_spec(name, false) + "</tg-emoji>"@,
{
    lemma_tag_literals();
    reveal_strlit("href");
    reveal_strlit("id");
    reveal_strlit("name");
    assert("id"@.len() == 2 && "name"@.len() == 4);
    let tn = crate::markup::text_view(x);
    let a = ElementView { tag: "a"@, attrs: seq![("href"@, AttrView::Str(h))], children: seq![tn] };
    assert(!a.is_text());
    assert(a.attr_str("href"@) == Some(h));
    assert(a.children.drop_last() =~= Seq::<ElementView>::empty());
    assert(a.children.last() == tn);
    assert(tn.is_text());
    assert(tn.text() == Some(x));
    let open = "<a href=\""@ + escape_spec(h, true) + "\">"@;
    let s1 = append_text(st, open);
    assert(render_spec(info, s1, a.children) == visit_spec(info, s1, tn));
    assert(st.current.content + open + escape_spec(x, false) + "</a>"@ =~= st.current.content + "<a href=\""@
        + escape_spec(h, true) + "\">"@ + escape_spec(x, false) + "</a>"@);
    let em = ElementView {
        tag: "emoji"@,
        attrs: seq![("id"@, AttrView::Str(int_decimal(n as int))), ("name"@, AttrView::Str(name))],
        children: Seq::empty(),
    };
    assert(!em.is_text());
    assert(!is_format_tag(em.tag));
    assert(em.attrs.drop_first() =~= seq![("name"@, AttrView::Str(name))]);
    assert(crate::element::attrs_lookup(em.attrs.drop_first(), "name"@) == Some(AttrView::Str(name)));
    assert(em.attr_str("id"@) == Some(int_decimal(n as int)));
    assert(em.attr_str("name"@) == Some(name));
    crate::text::lemma_parse_i64_decimal(n);
    assert(st.current.content + ("<tg-emoji emoji-id=\""@ + int_decimal(n as int) + "\">"@ + escape_spec(name, false)
        + "</tg-emoji>"@) =~= st.current.content + "<tg-emoji emoji-id=\""@ + int_decimal(n as int) + "\">"@
        + escape_spec(name, false) + "</tg-emoji>"@);
}

/// No row of a keyboard holds more than six buttons.
pub open spec fn rows_bounded(rows: Seq<Seq<ButtonView>>) -> bool {
    forall|i: int| 0 <= i < rows.len() ==> #[trigger] rows[i].len() <= 6
}

/// A finished message has text or media, and its keyboard rows are bounded.
pub open spec fn pack_done_ok(p: PackView) -> bool {
    (p.content.len() > 0 || p.asset.len() > 0) && rows_bounded(p.rows)
}

/// What every state of the encoder keeps: each finished message has text or media, and
/// no keyboard row, finished or not, holds more than six buttons.
pub open spec fn enc_ok(st: EncState) -> bool {
    &&& forall|i: int| 0 <= i < st.packs.len() ==> #[trigger] pack_done_ok(st.packs[i])
    &&& rows_bounded(st.current.rows)
}

proof fn lemma_flush_keeps(st: EncState)
    requires
        enc_ok(st),
    ensures
        enc_ok(flush_spec(st)),
        flush_spec(st).current.rows.len() == 0 || flush_spec(st) == st,
{
    let s1 = flush_spec(st);
    if !(st.current.content.len() == 0 && st.current.asset.len() == 0) {
        assert forall|i: int| 0 <= i < s1.packs.len() implies #[trigger] pack_done_ok(s1.packs[i]) by {
            if i < st.packs.len() {
                assert(s1.packs[i] == st.packs[i]);
            }
        }
    }
}

proof fn lemma_add_button_keeps(st: EncState, b: ButtonView)
    requires
        enc_ok(st),
    ensures
        enc_ok(add_button(st, b)),
{
    let rows0 = if st.current.rows.len() == 0 {
        seq![Seq::<ButtonView>::empty()]
    } else {
        st.current.rows
    };
    let rows1 = if rows0.last().len() > 5 {
        rows0.push(Seq::empty())
    } else {
        rows0
    };
    assert(rows_bounded(rows0));
    assert(rows_bounded(rows1));
    assert(rows1.last().len() <= 5);
    let rows2 = rows1.update(rows1.len() - 1, rows1.last().push(b));
    assert(rows_bounded(rows2)) by {
        assert forall|i: int| 0 <= i < rows2.len() implies #[trigger] rows2[i].len() <= 6 by {
            if i < rows1.len() - 1 {
                assert(rows2[i] == rows1[i]);
            }
        }
    }
    assert(add_button(st, b).current.rows == rows2);
}

/// The encoder keeps its invariant through every element it takes in.
pub proof fn lemma_visit_keeps(info: EncoderInfo, st: EncState, e: ElementView)
    requires
        enc_ok(st),
    ensures
        enc_ok(visit_spec(info, st, e)),
    decreases e, 1nat,
{
    let tag = e.tag;
    if e.is_text() || tag == "br"@ {
    } else if tag == "p"@ {
        lemma_render_keeps(info, ensure_newline(st), e.children);
    } else if tag == "a"@ {
        let open = match e.attr_str("href"@) {
            Some(h) => "<a href=\""@ + escape_spec(h, true) + "\">"@,
            None => "<a>"@,
        };
        lemma_render_keeps(info, append_text(st, open), e.children);
    } else if is_format_tag(tag) {
        lemma_render_keeps(info, append_text(st, seq!['<'] + tag + seq!['>']), e.children);
    } else if tag == "spl"@ {
        lemma_render_keeps(info, append_text(st, "<tg-spoiler>"@), e.children);
    } else if tag == "code"@ {
        lemma_render_keeps(info, append_text(st, "<code>"@), e.children);
    } else if tag == "pre"@ || tag == "code-block"@ {
        let open = match e.attr_str("lang"@) {
            Some(l) => "<pre><code class=\"language-"@ + escape_spec(l, true) + "\">"@,
            None => "<pre><code>"@,
        };
        lemma_render_keeps(info, append_text(st, open), e.children);
    } else if tag == "at"@ || tag == "emoji"@ || is_media_tag(tag) {
    } else if tag == "figure"@ {
        lemma_flush_keeps(st);
        let s1 = EncState { figure: true, ..flush_spec(st) };
        lemma_render_keeps(info, s1, e.children);
        lemma_flush_keeps(render_spec(info, s1, e.children));
    } else if tag == "quote"@ {
        lemma_flush_keeps(st);
        lemma_render_keeps(info, append_text(st, "<blockquote>"@), e.children);
    } else if tag == "button"@ {
        lemma_add_button_keeps(st, button_of(e));
    } else if tag == "button-group"@ {
        let s1 = push_row(st);
        assert(rows_bounded(s1.current.rows)) by {
            assert forall|i: int| 0 <= i < s1.current.rows.len() implies #[trigger] s1.current.rows[i].len() <= 6 by {
                if i < st.current.rows.len() {
                    assert(s1.current.rows[i] == st.current.rows[i]);
                }
            }
        }
        lemma_render_keeps(info, s1, e.children);
        let s2 = render_spec(info, s1, e.children);
        let s3 = push_row(s2);
        assert(rows_bounded(s3.current.rows)) by {
            assert forall|i: int| 0 <= i < s3.current.rows.len() implies #[trigger] s3.current.rows[i].len() <= 6 by {
                if i < s2.current.rows.len() {
                    assert(s3.current.rows[i] == s2.current.rows[i]);
                }
            }
        }
    } else if tag == "message"@ {
        if st.figure {
            lemma_render_keeps(info, st, e.children);
        } else {
            lemma_flush_keeps(st);
            lemma_render_keeps(info, flush_spec(st), e.children);
            lemma_flush_keeps(render_spec(info, flush_spec(st), e.children));
        }
    } else {
        lemma_render_keeps(info, st, e.children);
    }
}

/// The encoder keeps its invariant through every sequence of elements it takes in.
pub proof fn lemma_render_keeps(info: EncoderInfo, st: EncState, es: Seq<ElementView>)
    requires
        enc_ok(st),
    ensures
        enc_ok(render_spec(info, st, es)),
    decreases es, 0nat,
{
    if es.len() > 0 {
        lemma_render_keeps(info, st, es.drop_last());
        lemma_visit_keeps(info, render_spec(info, st, es.drop_last()), es.last());
    }
}

pub open spec fn packs_view(ps: Seq<MessagePack>) -> Seq<PackView> {
    ps.map_values(|p: MessagePack| p.view())
}

/// How the encoder is writing: plainly, or inside a `figure`.
#[derive(PartialEq, Eq, Structural)]
enum MessageEncoderMode {
    Default,
    Figure,
}

/// Turns Satori elements into Telegram messages (HTML text, media, replies, keyboards).
pub struct MessageEncoder {
    pub packs: Vec<MessagePack>,
    current: MessagePack,
    mode: MessageEncoderMode,
    info: EncoderInfo,
}

/// The name of the custom emoji with the given id.
fn get_emoji_name(info: &EncoderInfo, id: i64) -> (r: Option<&str>)
    ensures
        r is Some <==> emoji_name_spec(info.emojis@, id) is Some,
        r matches Some(a) ==> a@ == emoji_name_spec(info.emojis@, id).unwrap(),
{
    let mut i: usize = 0;
    assert(info.emojis@.skip(0) == info.emojis@);
    while i < info.emojis.len()
        invariant
            i <= info.emojis.len(),
            emoji_name_spec(info.emojis@, id) == emoji_name_spec(info.emojis@.skip(i as int), id),
        decreases info.emojis.len() - i,
    {
        assert(info.emojis@.skip(i as int).drop_first() == info.emojis@.skip(i + 1));
        if info.emojis[i].0 == id {
            return sticker_alt(info.emojis[i].1.as_slice());
        }
        i = i + 1;
    }
    None
}

/// The name to show for a peer.
fn display_name(p: &PeerInfo) -> (r: Option<Vec<char>>)
    ensures
        match r {
            Some(v) => peer_display_name(*p) == Some(v@),
            None => peer_display_name(*p) is None,
        },
{
    let username = match p {
        PeerInfo::User(u) => &u.username,
        PeerInfo::Group(g) => &g.username,
        PeerInfo::Channel(c) => &c.username,
    };
    match username {
        Some(u) => {
            let mut v: Vec<char> = Vec::new();
            v.push('@');
            append_str(&mut v, u.as_str());
            assert(v@ == seq!['@'] + u@);
            Some(v)
        },
        None => match p {
            PeerInfo::User(u) => {
                let v = chars_of(u.full_name.as_str());
                if v.len() == 0 {
                    None
                } else {
                    Some(v)
                }
            },
            PeerInfo::Group(g) => match &g.title {
                Some(t) => Some(chars_of(t.as_str())),
                None => None,
            },
            PeerInfo::Channel(c) => Some(chars_of(c.title.as_str())),
        },
    }
}

/// The name to show for the peer with the given dialog id.
fn get_user_name(info: &EncoderInfo, id: i64) -> (r: Option<Vec<char>>)
    ensures
        match r {
            Some(v) => user_name_spec(info.users_by_id@, id) == Some(v@),
            None => user_name_spec(info.users_by_id@, id) is None,
        },
{
    let mut i: usize = 0;
    assert(info.users_by_id@.skip(0) == info.users_by_id@);
    while i < info.users_by_id.len()
        invariant
            i <= info.users_by_id.len(),
            user_name_spec(info.users_by_id@, id) == user_name_spec(info.users_by_id@.skip(i as int), id),
        decreases info.users_by_id.len() - i,
    {
        assert(info.users_by_id@.skip(i as int).drop_first() == info.users_by_id@.skip(i + 1));
        if info.users_by_id[i].0 == id {
            return display_name(&info.users_by_id[i].1);
        }
        i = i + 1;
    }
    None
}

/// The dialog id of the given username.
fn get_user_id(info: &EncoderInfo, name: &[char]) -> (r: Option<i64>)
    ensures
        r == user_id_spec(info.users_by_name@, name@),
{
    let mut i: usize = 0;
    assert(info.users_by_name@.skip(0) == info.users_by_name@);
    while i < info.users_by_name.len()
        invariant
            i <= info.users_by_name.len(),
            user_id_spec(info.users_by_name@, name@) == user_id_spec(info.users_by_name@.skip(i as int), name@),
        decreases info.users_by_name.len() - i,
    {
        assert(info.users_by_name@.skip(i as int).drop_first() == info.users_by_name@.skip(i + 1));
        let k = chars_of(info.users_by_name[i].0.as_str());
        if crate::text::chars_eq(k.as_slice(), name) {
            return Some(info.users_by_name[i].1);
        }
        i = i + 1;
    }
    None
}

/// Appends `mention_link(id, display)`.
fn push_mention(out: &mut Vec<char>, id: &[char], display: &[char])
    ensures
        final(out)@ == old(out)@ + mention_link(id@, display@),
{
    append_str(out, "<a href=\"tg://user?id=");
    append_chars(out, id);
    append_str(out, "\">");
    escape_into(out, display, false);
    append_str(out, "</a>");
}

impl MessageEncoder {
    /// The state of the encoder.
    pub closed spec fn state(&self) -> EncState {
        EncState {
            packs: packs_view(self.packs@),
            current: self.current.view(),
            figure: self.mode == MessageEncoderMode::Figure,
        }
    }

    /// What the encoder knows of emojis and users.
    pub closed spec fn info(&self) -> EncoderInfo {
        self.info
    }

    /// An encoder with no message written yet.
    pub fn new(info: EncoderInfo) -> (e: MessageEncoder)
        ensures
            e.info() == info,
            e.state() == (EncState { packs: Seq::empty(), current: empty_pack(), figure: false }),
    {
        let e = MessageEncoder {
            packs: Vec::new(),
            current: MessagePack::new(),
            mode: MessageEncoderMode::Default,
            info,
        };
        assert(packs_view(e.packs@) =~= Seq::<PackView>::empty());
        e
    }

    fn append(&mut self, s: &[char])
        ensures
            final(self).state() == append_text(old(self).state(), s@),
            final(self).info == old(self).info,
    {
        push_chars(&mut self.current.content, s);
    }

    fn append_lit(&mut self, s: &str)
        ensures
            final(self).state() == append_text(old(self).state(), s@),
            final(self).info == old(self).info,
    {
        push_str(&mut self.current.content, s);
    }

    fn ensure_newline(&mut self)
        ensures
            final(self).state() == ensure_newline(old(self).state()),
            final(self).info == old(self).info,
    {
        let c = chars_of(self.current.content.as_str());
        if !(c.len() > 0 && c[c.len() - 1] == '\n') {
            self.append_lit("\n");
            proof {
                reveal_strlit("\n");
                assert("\n"@ =~= seq!['\n']);
            }
        }
    }

    fn push_row(&mut self)
        ensures
            final(self).state() == push_row(old(self).state()),
            final(self).info == old(self).info,
    {
        let ghost before = self.current.rows@;
        let empty_row: Vec<InlineButton> = Vec::new();
        assert(row_view(empty_row@) =~= Seq::<ButtonView>::empty());
        self.current.rows.push(empty_row);
        assert(rows_view(self.current.rows@) =~= rows_view(before).push(Seq::<ButtonView>::empty()));
    }

    /// The message being written is done, unless it has neither text nor media.
    pub fn flush(&mut self)
        ensures
            final(self).state() == flush_spec(old(self).state()),
            final(self).info() == old(self).info(),
    {
        if self.current.content.as_str().is_empty() && self.current.asset.len() == 0 {
            proof {
                crate::element::lemma_elements_view_len(self.current.asset@);
            }
            return;
        }
        proof {
            crate::element::lemma_elements_view_len(self.current.asset@);
        }
        let ghost before = self.packs@;
        let mut fresh = MessagePack::new();
        core::mem::swap(&mut fresh, &mut self.current);
        self.packs.push(fresh);
        assert(packs_view(self.packs@) =~= packs_view(before).push(fresh.view()));
    }

    fn add_button(&mut self, b: InlineButton)
        ensures
            final(self).state() == add_button(old(self).state(), b.view()),
            final(self).info == old(self).info,
    {
        let ghost rv0 = rows_view(self.current.rows@);
        if self.current.rows.len() == 0 {
            let empty_row: Vec<InlineButton> = Vec::new();
            assert(row_view(empty_row@) =~= Seq::<ButtonView>::empty());
            self.current.rows.push(empty_row);
            assert(rows_view(self.current.rows@) =~= seq![Seq::<ButtonView>::empty()]);
        }
        let ghost rv1 = rows_view(self.current.rows@);
        let n = self.current.rows.len();
        if self.current.rows[n - 1].len() > 5 {
            let empty_row: Vec<InlineButton> = Vec::new();
            assert(row_view(empty_row@) =~= Seq::<ButtonView>::empty());
            self.current.rows.push(empty_row);
            assert(rows_view(self.current.rows@) =~= rv1.push(Seq::<ButtonView>::empty()));
        }
        let ghost rv2 = rows_view(self.current.rows@);
        let ghost bv = b.view();
        let mut row = self.current.rows.pop().unwrap();
        let ghost row0 = row@;
        row.push(b);
        assert(row_view(row@) =~= row_view(row0).push(bv));
        self.current.rows.push(row);
        assert(rows_view(self.current.rows@) =~= rv2.update(rv2.len() - 1, rv2.last().push(bv)));
    }

    /// Takes in the children of an element, one after the other.
    fn render_children(&mut self, e: &Element)
        ensures
            final(self).state() == render_spec(old(self).info, old(self).state(), e.view().children),
            final(self).info == old(self).info,
        decreases e, 0nat,
    {
        let ghost es = e.children@;
        let ghost st0 = self.state();
        assert(e.view().children == elements_view(es));
        assert(es.take(0) == Seq::<Element>::empty());
        let mut i: usize = 0;
        while i < e.children.len()
            invariant
                i <= e.children.len(),
                es == e.children@,
                self.info == old(self).info,
                self.state() == render_spec(self.info, st0, elements_view(es.take(i as int))),
            decreases e.children.len() - i,
        {
            self.visit(&e.children[i]);
            proof {
                crate::element::lemma_elements_view_take(es, i as int);
                assert(elements_view(es.take(i + 1)).drop_last() == elements_view(es.take(i as int)));
            }
            i = i + 1;
        }
        assert(es.take(es.len() as int) == es);
    }

    /// Takes in one element.
    fn visit(&mut self, e: &Element)
        ensures
            final(self).state() == visit_spec(old(self).info, old(self).state(), e.view()),
            final(self).info == old(self).info,
        decreases e, 1nat,
    {
        let tag = e.tag.as_str();
        let ghost ev = e.view();
        if let Some(t) = e.get_text() {
            let tc = chars_of(t);
            let mut buf: Vec<char> = Vec::new();
            escape_into(&mut buf, tc.as_slice(), false);
            self.append(buf.as_slice());
        } else if str_eq(tag, "br") {
            self.append_lit("\n");
            proof {
                reveal_strlit("\n");
                assert("\n"@ =~= seq!['\n']);
            }
        } else if str_eq(tag, "p") {
            self.ensure_newline();
            self.render_children(e);
            self.ensure_newline();
        } else if str_eq(tag, "a") {
            match e.get_attr_str("href") {
                Some(h) => {
                    let hc = chars_of(h);
                    let mut buf: Vec<char> = Vec::new();
                    append_str(&mut buf, "<a href=\"");
                    escape_into(&mut buf, hc.as_slice(), true);
                    append_str(&mut buf, "\">");
                    self.append(buf.as_slice());
                },
                None => self.append_lit("<a>"),
            }
            self.render_children(e);
            self.append_lit("</a>");
        } else if str_eq(tag, "b") || str_eq(tag, "strong") || str_eq(tag, "i") || str_eq(tag, "em")
            || str_eq(tag, "u") || str_eq(tag, "ins") || str_eq(tag, "s") || str_eq(tag, "del") {
            let tc = chars_of(tag);
            let mut open: Vec<char> = Vec::new();
            open.push('<');
            append_chars(&mut open, tc.as_slice());
            open.push('>');
            assert(open@ =~= seq!['<'] + tc@ + seq!['>']);
            self.append(open.as_slice());
            self.render_children(e);
            let mut close: Vec<char> = Vec::new();
            close.push('<');
            close.push('/');
            append_chars(&mut close, tc.as_slice());
            close.push('>');
            assert(close@ =~= seq!['<', '/'] + tc@ + seq!['>']);
            self.append(close.as_slice());
        } else if str_eq(tag, "spl") {
            self.append_lit("<tg-spoiler>");
            self.render_children(e);
            self.append_lit("</tg-spoiler>");
        } else if str_eq(tag, "code") {
            self.append_lit("<code>");
            match e.get_attr_str("content") {
                Some(c) => {
                    let cc = chars_of(c);
                    let mut buf: Vec<char> = Vec::new();
                    escape_into(&mut buf, cc.as_slice(), false);
                    self.append(buf.as_slice());
                },
                None => self.render_children(e),
            }
            self.append_lit("</code>");
        } else if str_eq(tag, "pre") || str_eq(tag, "code-block") {
            match e.get_attr_str("lang") {
                Some(l) => {
                    let lc = chars_of(l);
                    let mut buf: Vec<char> = Vec::new();
                    append_str(&mut buf, "<pre><code class=\"language-");
                    escape_into(&mut buf, lc.as_slice(), true);
                    append_str(&mut buf, "\">");
                    self.append(buf.as_slice());
                },
                None => self.append_lit("<pre><code>"),
            }
            self.render_children(e);
            self.append_lit("</code></pre>");
        } else if str_eq(tag, "at") {
            self.visit_at(e);
        } else if str_eq(tag, "emoji") {
            self.visit_emoji(e);
        } else if str_eq(tag, "img") || str_eq(tag, "image") || str_eq(tag, "audio") || str_eq(tag, "video")
            || str_eq(tag, "file") {
            let ghost before = self.current.asset@;
            let d = e.duplicate();
            self.current.asset.push(d);
            proof {
                assert(self.current.asset@.drop_last() == before);
            }
        } else if str_eq(tag, "figure") {
            self.flush();
            self.mode = MessageEncoderMode::Figure;
            self.render_children(e);
            self.flush();
        } else if str_eq(tag, "quote") {
            match e.get_attr_str("id") {
                Some(id) => {
                    self.flush();
                    self.current.reply = Some(id.to_owned());
                },
                None => {
                    self.append_lit("<blockquote>");
                    self.render_children(e);
                    self.append_lit("</blockquote>");
                },
            }
        } else if str_eq(tag, "button") {
            let b = button_from(e);
            self.add_button(b);
        } else if str_eq(tag, "button-group") {
            self.push_row();
            self.render_children(e);
            self.push_row();
        } else if str_eq(tag, "message") {
            if self.mode == MessageEncoderMode::Figure {
                self.render_children(e);
                self.append_lit("\n");
                proof {
                    reveal_strlit("\n");
                    assert("\n"@ =~= seq!['\n']);
                }
            } else {
                self.flush();
                self.render_children(e);
                self.flush();
            }
        } else {
            self.render_children(e);
        }
    }

    fn visit_at(&mut self, e: &Element)
        ensures
            final(self).state() == at_spec(old(self).info, old(self).state(), e.view()),
            final(self).info == old(self).info,
    {
        match e.get_attr_str("id") {
            None => {},
            Some(id) => {
                let idc = chars_of(id);
                match parse_i64(idc.as_slice()) {
                    Some(n) => {
                        let display: Vec<char> = match e.get_attr_str("name") {
                            Some(nm) => chars_of(nm),
                            None => match get_user_name(&self.info, n) {
                                Some(u) => u,
                                None => chars_of("User"),
                            },
                        };
                        let mut num: Vec<char> = Vec::new();
                        push_i64_decimal(&mut num, n);
                        let mut buf: Vec<char> = Vec::new();
                        push_mention(&mut buf, num.as_slice(), display.as_slice());
                        self.append(buf.as_slice());
                    },
                    None => {
                        let username: &[char] = if idc.len() > 0 && idc[0] == '@' {
                            &idc[1..idc.len()]
                        } else {
                            idc.as_slice()
                        };
                        proof {
                            if idc.len() > 0 && idc[0] == '@' {
                                assert(username@ == idc@.drop_first());
                            }
                        }
                        let mut at_name: Vec<char> = Vec::new();
                        at_name.push('@');
                        append_chars(&mut at_name, username);
                        assert(at_name@ =~= seq!['@'] + username@);
                        let target: Vec<char> = match get_user_id(&self.info, username) {
                            Some(n) => {
                                let mut num: Vec<char> = Vec::new();
                                push_i64_decimal(&mut num, n);
                                num
                            },
                            None => {
                                let mut t: Vec<char> = Vec::new();
                                escape_into(&mut t, at_name.as_slice(), true);
                                t
                            },
                        };
                        let display: Vec<char> = match e.get_attr_str("name") {
                            Some(nm) => chars_of(nm),
                            None => at_name,
                        };
                        let mut buf: Vec<char> = Vec::new();
                        push_mention(&mut buf, target.as_slice(), display.as_slice());
                        self.append(buf.as_slice());
                    },
                }
            },
        }
    }

    fn visit_emoji(&mut self, e: &Element)
        ensures
            final(self).state() == emoji_spec(old(self).info, old(self).state(), e.view()),
            final(self).info == old(self).info,
    {
        match e.get_attr_str("id") {
            None => {},
            Some(id) => {
                let idc = chars_of(id);
                match parse_i64(idc.as_slice()) {
                    None => {},
                    Some(n) => {
                        let name: Vec<char> = match e.get_attr_str("name") {
                            Some(nm) => chars_of(nm),
                            None => match get_emoji_name(&self.info, n) {
                                Some(a) => chars_of(a),
                                None => {
                                    let mut v: Vec<char> = Vec::new();
                                    v.push('\u{1f600}');
                                    assert(v@ =~= seq!['\u{1f600}']);
                                    v
                                },
                            },
                        };
                        let mut buf: Vec<char> = Vec::new();
                        append_str(&mut buf, "<tg-emoji emoji-id=\"");
                        push_i64_decimal(&mut buf, n);
                        append_str(&mut buf, "\">");
                        escape_into(&mut buf, name.as_slice(), false);
                        append_str(&mut buf, "</tg-emoji>");
                        self.append(buf.as_slice());
                    },
                }
            },
        }
    }

    /// The messages written so far.
    pub fn into_packs(self) -> (packs: Vec<MessagePack>)
        ensures
            packs_view(packs@) == self.state().packs,
    {
        self.packs
    }

    /// Takes in a sequence of elements, one after the other.
    pub fn render(&mut self, elements: &[Element])
        ensures
            final(self).state() == render_spec(old(self).info(), old(self).state(), elements_view(elements@)),
            final(self).info() == old(self).info(),
    {
        let ghost es = elements@;
        let ghost st0 = self.state();
        assert(es.take(0) == Seq::<Element>::empty());
        let mut i: usize = 0;
        while i < elements.len()
            invariant
                i <= elements.len(),
                es == elements@,
                self.info == old(self).info,
                self.state() == render_spec(self.info, st0, elements_view(es.take(i as int))),
            decreases elements.len() - i,
        {
            self.visit(&elements[i]);
            proof {
                crate::element::lemma_elements_view_take(es, i as int);
                assert(elements_view(es.take(i + 1)).drop_last() == elements_view(es.take(i as int)));
            }
            i = i + 1;
        }
        assert(es.take(es.len() as int) == es);
    }
}

/// The button that a `button` element makes.
fn button_from(e: &Element) -> (b: InlineButton)
    ensures
        b.view() == button_of(e.view()),
{
    let label = e.strip();
    let empty = "";
    proof {
        reveal_strlit("");
        assert(empty@ =~= Seq::<char>::empty());
    }
    match e.get_attr_str("type") {
        Some(t) => {
            if str_eq(t, "link") {
                let url = match e.get_attr_str("href") {
                    Some(h) => h,
                    None => empty,
                };
                InlineButton::Url { text: label, url: url.to_owned() }
            } else if str_eq(t, "input") {
                let q = match e.get_attr_str("text") {
                    Some(h) => h,
                    None => empty,
                };
                InlineButton::Switch { text: label, query: q.to_owned() }
            } else {
                let d = match e.get_attr_str("id") {
                    Some(h) => h,
                    None => empty,
                };
                InlineButton::Data { text: label, data: d.to_owned() }
            }
        },
        None => {
            let d = match e.get_attr_str("id") {
                Some(h) => h,
                None => empty,
            };
            InlineButton::Data { text: label, data: d.to_owned() }
        },
    }
}


/// How a message is sent: as text; as an album with the text as the caption of its first
/// media; or as an album followed by the text with the keyboard.
#[derive(PartialEq, Eq, Structural)]
pub enum PackSend {
    Text,
    Album,
    AlbumThenKeyboard,
}

/// How to send one message: what it replies to and in which form.
pub struct PackPlan {
    pub reply_to: Option<i32>,
    pub send: PackSend,
}

/// The form of a message: text where it has no media; else an album, with the keyboard
/// sent after it where it has one.
pub open spec fn pack_send_spec(p: PackView) -> PackSend {
    if p.asset.len() == 0 {
        PackSend::Text
    } else if p.rows.len() > 0 {
        PackSend::AlbumThenKeyboard
    } else {
        PackSend::Album
    }
}

/// A message without media is sent as text; one with media as an album, with its text as
/// the caption, followed by the text with the keyboard where it has keyboard rows.
pub proof fn lemma_pack_send_form(p: PackView)
    ensures
        p.asset.len() == 0 ==> pack_send_spec(p) == PackSend::Text,
        p.asset.len() > 0 && p.rows.len() == 0 ==> pack_send_spec(p) == PackSend::Album,
        p.asset.len() > 0 && p.rows.len() > 0 ==> pack_send_spec(p) == PackSend::AlbumThenKeyboard,
{
}

/// Plans the sending of a message in the thread `thread_id`: it replies to the message it
/// names (an error 400, `Bad reply id`, where that id does not read as an `i32`), else to
/// the thread.
pub fn plan_pack(pack: &MessagePack, thread_id: Option<i32>) -> (r: Result<PackPlan, crate::error::WebError>)
    ensures
        match pack.reply {
            None => r matches Ok(p) && p.reply_to == thread_id && p.send == pack_send_spec(pack.view()),
            Some(s) => match spec_parse_i32(s@) {
                Some(n) => r matches Ok(p) && p.reply_to == Some(n) && p.send == pack_send_spec(pack.view()),
                None => r matches Err(e) && e.code == crate::error::BAD_REQUEST && e.reason@ == "Bad reply id"@,
            },
        },
{
    let reply = match &pack.reply {
        Some(s) => Some(s.as_str()),
        None => None,
    };
    let reply = crate::infos::parse_reply(reply)?;
    let reply_to = match reply {
        Some(n) => Some(n),
        None => thread_id,
    };
    let send = if pack.asset.len() == 0 {
        PackSend::Text
    } else if pack.rows.len() > 0 {
        PackSend::AlbumThenKeyboard
    } else {
        PackSend::Album
    };
    Ok(PackPlan { reply_to, send })
}

} // verus!
