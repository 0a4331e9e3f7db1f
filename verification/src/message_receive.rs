use vstd::prelude::*;

use crate::convert::{
    areas_fit, channel_from_peer, document_link, guild_from_peer, photo_link, satori_channel_from_tg_peer,
    satori_guild_from_tg_peer, satori_link_from_tg_document, satori_link_from_tg_photo,
    satori_user_from_tg_peer, user_from_peer, MessageView,
};
use crate::element::{
    attrs_unique, elem_keys_unique, elems_keys_unique, attr_view, attrs_view, content_key, dump, element_view, elements_view, markup_views, text_tag, AttrValue,
    AttrView, Element, ElementView,
};
use crate::markup::text_view;
use crate::telegram::{
    document_name, first_filename, has_animated, has_audio, is_animated, is_audio, DocAttr, MediaInfo,
    MessageInfo, PhotoSizeInfo, RawPhoto, ReplyHeader, DocumentInfo,
};
use crate::text::{i64_to_string, int_decimal, push_i64_decimal, string_of};
use crate::types::Message;
use crate::utf16::{char_utf16, encode_utf16, from_utf16_lossy, to_utf16, utf16_lossy};

verus! {

/// The kind of a formatting entity of a Telegram message, as far as this library reads it.
pub enum EntityKind {
    Bold,
    Italic,
    Underline,
    Strike,
    Code,
    Pre,
    Spoiler,
    Mention,
    TextUrl { url: String },
    MentionName { user_id: i64 },
    CustomEmoji { document_id: i64 },
    /// Any kind the conversion leaves aside.
    Other,
}

/// A formatting entity: its kind and the range of UTF-16 code units it covers.
pub struct MessageEntity {
    pub kind: EntityKind,
    pub offset: i32,
    pub length: i32,
}

/// A place where formatting starts or ends: by an entity (its index) or by a line break.
pub struct Breakpoint {
    pub start: bool,
    pub pos: int,
    pub entity: Option<int>,
}

/// The breakpoints of the supported entities: a start and an end for each, in order.
pub open spec fn entity_breakpoints(es: Seq<MessageEntity>) -> Seq<Breakpoint>
    decreases es.len(),
{
    if es.len() == 0 {
        Seq::empty()
    } else {
        let prev = entity_breakpoints(es.drop_last());
        let i = es.len() - 1;
        let e = es.last();
        if e.kind is Other {
            prev
        } else {
            prev + seq![
                Breakpoint { start: true, pos: e.offset as int, entity: Some(i) },
                Breakpoint { start: false, pos: e.offset + e.length, entity: Some(i) },
            ]
        }
    }
}

/// The breakpoints of the line breaks among the first `n` code units: a start at the
/// line break and an end after it.
pub open spec fn newline_breakpoints(units: Seq<u16>, n: int) -> Seq<Breakpoint>
    decreases n,
{
    if n <= 0 {
        Seq::empty()
    } else {
        let prev = newline_breakpoints(units, n - 1);
        if units[n - 1] == 10 {
            prev + seq![
                Breakpoint { start: true, pos: n - 1, entity: None },
                Breakpoint { start: false, pos: n, entity: None },
            ]
        } else {
            prev
        }
    }
}

/// `b` put into the sorted `sorted` after every breakpoint at or before its position.
pub open spec fn insert_breakpoint(sorted: Seq<Breakpoint>, b: Breakpoint) -> Seq<Breakpoint>
    decreases sorted.len(),
{
    if sorted.len() == 0 {
        seq![b]
    } else if sorted.last().pos <= b.pos {
        sorted.push(b)
    } else {
        insert_breakpoint(sorted.drop_last(), b).push(sorted.last())
    }
}

/// The breakpoints sorted by position, those at one position kept in their order.
pub open spec fn sort_breakpoints(bs: Seq<Breakpoint>) -> Seq<Breakpoint>
    decreases bs.len(),
{
    if bs.len() == 0 {
        Seq::empty()
    } else {
        insert_breakpoint(sort_breakpoints(bs.drop_last()), bs.last())
    }
}

/// The formatting in force while reading the text.
pub struct EntityState {
    pub bold: bool,
    pub italic: bool,
    pub underline: bool,
    pub strike: bool,
    pub code: bool,
    pub pre: bool,
    pub spoiler: bool,
    pub mention: bool,
    pub link: Option<Seq<char>>,
    pub user: Option<i64>,
    pub emoji: Option<i64>,
}

pub open spec fn no_formatting() -> EntityState {
    EntityState {
        bold: false,
        italic: false,
        underline: false,
        strike: false,
        code: false,
        pre: false,
        spoiler: false,
        mention: false,
        link: None,
        user: None,
        emoji: None,
    }
}

/// The formatting after an entity of kind `k` starts (or ends).
pub open spec fn update_state(st: EntityState, k: EntityKind, start: bool) -> EntityState {
    match k {
        EntityKind::Bold => EntityState { bold: start, ..st },
        EntityKind::Italic => EntityState { italic: start, ..st },
        EntityKind::Underline => EntityState { underline: start, ..st },
        EntityKind::Strike => EntityState { strike: start, ..st },
        EntityKind::Code => EntityState { code: start, ..st },
        EntityKind::Pre => EntityState { pre: start, ..st },
        EntityKind::Spoiler => EntityState { spoiler: start, ..st },
        EntityKind::Mention => EntityState { mention: start, ..st },
        EntityKind::TextUrl { url } => EntityState { link: if start { Some(url@) } else { None }, ..st },
        EntityKind::MentionName { user_id } => EntityState {
            user: if start { Some(user_id) } else { None },
            ..st
        },
        EntityKind::CustomEmoji { document_id } => EntityState {
            emoji: if start { Some(document_id) } else { None },
            ..st
        },
        EntityKind::Other => st,
    }
}

/// An element with one child and no attributes.
pub open spec fn wrap(tag: Seq<char>, child: ElementView) -> ElementView {
    ElementView { tag, attrs: Seq::empty(), children: seq![child] }
}

/// A mention: `at` with an `id` and a `name`.
pub open spec fn at_view(id: Seq<char>, name: Seq<char>) -> ElementView {
    ElementView {
        tag: "at"@,
        attrs: seq![("id"@, AttrView::Str(id)), ("name"@, AttrView::Str(name))],
        children: Seq::empty(),
    }
}

/// The element for a run of text read with the given formatting: the text node wrapped
/// in `b`, `i`, `u`, `s`, `code`, `pre`, `spl` (innermost first) as the formatting asks;
/// a mention of a username becomes `at` (the text without its first character); a link
/// wraps it in `a`; a mention of a user id becomes `at`; a custom emoji becomes `emoji`;
/// a line break becomes `br`.
pub open spec fn segment_element(st: EntityState, content: Seq<char>) -> ElementView {
    let e0 = text_view(content);
    let e1 = if st.bold { wrap("b"@, e0) } else { e0 };
    let e2 = if st.italic { wrap("i"@, e1) } else { e1 };
    let e3 = if st.underline { wrap("u"@, e2) } else { e2 };
    let e4 = if st.strike { wrap("s"@, e3) } else { e3 };
    let e5 = if st.code { wrap("code"@, e4) } else { e4 };
    let e6 = if st.pre { wrap("pre"@, e5) } else { e5 };
    let e7 = if st.spoiler { wrap("spl"@, e6) } else { e6 };
    let e8 = if st.mention { at_view(content.drop_first(), content.drop_first()) } else { e7 };
    let e9 = match st.link {
        Some(h) => ElementView { tag: "a"@, attrs: seq![("href"@, AttrView::Str(h))], children: seq![e8] },
        None => e8,
    };
    let e10 = match st.user {
        Some(u) => at_view(int_decimal(u as int), content),
        None => e9,
    };
    let e11 = match st.emoji {
        Some(d) => ElementView {
            tag: "emoji"@,
            attrs: seq![("id"@, AttrView::Str(int_decimal(d as int)))],
            children: Seq::empty(),
        },
        None => e10,
    };
    if content == seq!['\n'] {
        ElementView { tag: "br"@, attrs: Seq::empty(), children: Seq::empty() }
    } else {
        e11
    }
}

/// The state of the conversion: the formatting, the elements so far, the position read
/// up to, and whether a mention run began with a character of more than one byte
/// (where the text cannot be cut after its first byte).
pub struct ConvState {
    pub ent: EntityState,
    pub elements: Seq<ElementView>,
    pub last_pos: int,
    pub failed: bool,
}

/// One breakpoint taken: the text since the last one becomes an element, then the
/// formatting changes.
pub open spec fn conv_step(units: Seq<u16>, es: Seq<MessageEntity>, cs: ConvState, bp: Breakpoint) -> ConvState {
    if cs.failed {
        cs
    } else {
        let cs1 = if bp.pos > cs.last_pos {
            let content = utf16_lossy(units.subrange(cs.last_pos, bp.pos));
            if cs.ent.mention && content.len() > 0 && content[0] as u32 >= 0x80 {
                ConvState { failed: true, ..cs }
            } else {
                ConvState { elements: cs.elements.push(segment_element(cs.ent, content)), ..cs }
            }
        } else {
            cs
        };
        let ent2 = match bp.entity {
            Some(i) => update_state(cs1.ent, es[i].kind, bp.start),
            None => cs1.ent,
        };
        ConvState { ent: ent2, last_pos: bp.pos, ..cs1 }
    }
}

/// All breakpoints taken, in order.
pub open spec fn conv_from(units: Seq<u16>, es: Seq<MessageEntity>, cs: ConvState, bps: Seq<Breakpoint>) -> ConvState
    decreases bps.len(),
{
    if bps.len() == 0 {
        cs
    } else {
        conv_from(units, es, conv_step(units, es, cs, bps[0]), bps.drop_first())
    }
}

/// The conversion of the text (as UTF-16 code units) with its entities, before the text
/// after the last breakpoint.
pub open spec fn conv_all(units: Seq<u16>, es: Seq<MessageEntity>) -> ConvState {
    let bps = sort_breakpoints(entity_breakpoints(es) + newline_breakpoints(units, units.len() as int));
    conv_from(units, es, ConvState { ent: no_formatting(), elements: Seq::empty(), last_pos: 0, failed: false }, bps)
}

/// Every supported entity lies within the text.
pub open spec fn entities_in_bounds(units: Seq<u16>, es: Seq<MessageEntity>) -> bool {
    forall|i: int|
        0 <= i < es.len() && !(#[trigger] es[i].kind is Other) ==> 0 <= es[i].offset && 0 <= es[i].length
            && es[i].offset + es[i].length <= units.len()
}

pub open spec fn entity_seq(entities: Option<&[MessageEntity]>) -> Seq<MessageEntity> {
    match entities {
        Some(s) => s@,
        None => Seq::empty(),
    }
}

/// Whether the conversion is out of its domain: an entity outside the text, or a
/// mention whose text starts with a character of more than one byte.
pub open spec fn entities_fail(text: Seq<char>, es: Seq<MessageEntity>) -> bool {
    let units = encode_utf16(text);
    !entities_in_bounds(units, es) || conv_all(units, es).failed
}

/// The Satori elements of a Telegram text and its formatting entities.
pub open spec fn entities_to_elements(text: Seq<char>, es: Seq<MessageEntity>) -> Seq<ElementView> {
    let units = encode_utf16(text);
    let cs = conv_all(units, es);
    if cs.last_pos < units.len() {
        cs.elements.push(text_view(utf16_lossy(units.subrange(cs.last_pos, units.len() as int))))
    } else {
        cs.elements
    }
}


struct Bp {
    start: bool,
    pos: usize,
    entity: Option<usize>,
}

impl Bp {
    spec fn view(&self) -> Breakpoint {
        Breakpoint {
            start: self.start,
            pos: self.pos as int,
            entity: match self.entity {
                Some(i) => Some(i as int),
                None => None,
            },
        }
    }
}

spec fn bps_view(v: Seq<Bp>) -> Seq<Breakpoint> {
    v.map_values(|b: Bp| b.view())
}

proof fn lemma_bps_view_push(v: Seq<Bp>, b: Bp)
    ensures
        bps_view(v.push(b)) == bps_view(v).push(b.view()),
{
    assert(bps_view(v.push(b)) =~= bps_view(v).push(b.view()));
}

fn entity_breakpoints_exec(es: &[MessageEntity], len: usize) -> (r: Vec<Bp>)
    requires
        forall|i: int|
            0 <= i < es.len() && !(#[trigger] es@[i].kind is Other) ==> 0 <= es@[i].offset && 0
                <= es@[i].length && es@[i].offset + es@[i].length <= len,
    ensures
        bps_view(r@) == entity_breakpoints(es@),
        forall|k: int| 0 <= k < r.len() ==> (#[trigger] r@[k]).pos <= len && (r@[k].entity matches Some(i) ==> i < es.len()),
{
    let mut r: Vec<Bp> = Vec::new();
    let mut i: usize = 0;
    assert(es@.take(0) == Seq::<MessageEntity>::empty());
    while i < es.len()
        invariant
            i <= es.len(),
            forall|k: int|
                0 <= k < es.len() && !(#[trigger] es@[k].kind is Other) ==> 0 <= es@[k].offset && 0
                    <= es@[k].length && es@[k].offset + es@[k].length <= len,
            bps_view(r@) == entity_breakpoints(es@.take(i as int)),
            forall|k: int| 0 <= k < r.len() ==> (#[trigger] r@[k]).pos <= len && (r@[k].entity matches Some(j) ==> j < es.len()),
        decreases es.len() - i,
    {
        let e = &es[i];
        assert(es@.take(i + 1).drop_last() == es@.take(i as int));
        assert(es@.take(i + 1).last() == es@[i as int]);
        if let EntityKind::Other = &e.kind {
        } else {
            let off = e.offset as usize;
            let end = off + e.length as usize;
            let b1 = Bp { start: true, pos: off, entity: Some(i) };
            let b2 = Bp { start: false, pos: end, entity: Some(i) };
            let ghost before = r@;
            r.push(b1);
            r.push(b2);
            proof {
                lemma_bps_view_push(before, b1);
                lemma_bps_view_push(before.push(b1), b2);
                assert(bps_view(before).push(b1.view()).push(b2.view()) =~= bps_view(before) + seq![
                    b1.view(),
                    b2.view(),
                ]);
            }
        }
        i = i + 1;
    }
    assert(es@.take(es.len() as int) == es@);
    r
}

fn newline_breakpoints_exec(units: &[u16], r: &mut Vec<Bp>)
    ensures
        bps_view(final(r)@) == bps_view(old(r)@) + newline_breakpoints(units@, units.len() as int),
        forall|k: int| 0 <= k < old(r).len() ==> final(r)@[k] == old(r)@[k],
        forall|k: int| old(r).len() <= k < final(r).len() ==> (#[trigger] final(r)@[k]).pos <= units.len() && final(r)@[k].entity is None,
        final(r).len() >= old(r).len(),
{
    let ghost base = bps_view(r@);
    let mut i: usize = 0;
    while i < units.len()
        invariant
            i <= units.len(),
            r.len() >= old(r).len(),
            bps_view(r@) == bps_view(old(r)@) + newline_breakpoints(units@, i as int),
            forall|k: int| 0 <= k < old(r).len() ==> r@[k] == old(r)@[k],
            forall|k: int| old(r).len() <= k < r.len() ==> (#[trigger] r@[k]).pos <= units.len() && r@[k].entity is None,
        decreases units.len() - i,
    {
        if units[i] == 10 {
            let b1 = Bp { start: true, pos: i, entity: None };
            let b2 = Bp { start: false, pos: i + 1, entity: None };
            let ghost before = r@;
            r.push(b1);
            r.push(b2);
            proof {
                lemma_bps_view_push(before, b1);
                lemma_bps_view_push(before.push(b1), b2);
                assert(bps_view(before).push(b1.view()).push(b2.view()) =~= bps_view(before) + seq![
                    b1.view(),
                    b2.view(),
                ]);
            }
        }
        i = i + 1;
    }
}

proof fn lemma_insert_breakpoint(s: Seq<Breakpoint>, b: Breakpoint, j: int)
    requires
        0 <= j <= s.len(),
        forall|k: int| j <= k < s.len() ==> (#[trigger] s[k]).pos > b.pos,
        j > 0 ==> s[j - 1].pos <= b.pos,
    ensures
        insert_breakpoint(s, b) == s.take(j).push(b) + s.skip(j),
    decreases s.len(),
{
    if s.len() == 0 {
        assert(s.take(j).push(b) + s.skip(j) =~= seq![b]);
    } else if s.last().pos <= b.pos {
        assert(j == s.len());
        assert(s.take(j).push(b) + s.skip(j) =~= s.push(b));
    } else {
        lemma_insert_breakpoint(s.drop_last(), b, j);
        assert((s.drop_last().take(j).push(b) + s.drop_last().skip(j)).push(s.last()) =~= s.take(j).push(b)
            + s.skip(j));
    }
}

fn sort_bps(v: Vec<Bp>) -> (r: Vec<Bp>)
    ensures
        bps_view(r@) == sort_breakpoints(bps_view(v@)),
        forall|k: int| 0 <= k < r.len() ==> exists|m: int| 0 <= m < v.len() && #[trigger] r@[k] == v@[m],
{
    let mut r: Vec<Bp> = Vec::new();
    let mut i: usize = 0;
    assert(bps_view(v@).take(0) =~= Seq::<Breakpoint>::empty());
    while i < v.len()
        invariant
            i <= v.len(),
            bps_view(r@) == sort_breakpoints(bps_view(v@).take(i as int)),
            forall|k: int| 0 <= k < r.len() ==> exists|m: int| 0 <= m < v.len() && #[trigger] r@[k] == v@[m],
        decreases v.len() - i,
    {
        let b = &v[i];
        let mut j = r.len();
        while j > 0 && r[j - 1].pos > b.pos
            invariant
                j <= r.len(),
                forall|k: int| j <= k < r.len() ==> (#[trigger] r@[k]).pos > b.pos,
            decreases j,
        {
            j = j - 1;
        }
        let nb = Bp { start: b.start, pos: b.pos, entity: b.entity };
        let ghost sv = bps_view(r@);
        let ghost rold = r@;
        proof {
            assert forall|k: int| j <= k < sv.len() implies (#[trigger] sv[k]).pos > nb.view().pos by {
                assert(sv[k] == r@[k].view());
            }
            if j > 0 {
                assert(sv[j - 1] == r@[j - 1].view());
            }
            lemma_insert_breakpoint(sv, nb.view(), j as int);
            assert(bps_view(v@).take(i + 1).drop_last() =~= bps_view(v@).take(i as int));
            assert(bps_view(v@).take(i + 1).last() == nb.view());
        }
        r.insert(j, nb);
        proof {
            assert(bps_view(r@) =~= sv.take(j as int).push(nb.view()) + sv.skip(j as int)) by {
                assert(r@ =~= rold.take(j as int).push(nb) + rold.skip(j as int));
            }
            assert forall|k: int| 0 <= k < r.len() implies exists|m: int| 0 <= m < v.len() && #[trigger] r@[k] == v@[m] by {
                if k < j {
                    assert(r@[k] == rold[k]);
                } else if k == j {
                    assert(r@[k] == v@[i as int]);
                } else {
                    assert(r@[k] == rold[k - 1]);
                }
            }
        }
        i = i + 1;
    }
    assert(bps_view(v@).take(v.len() as int) =~= bps_view(v@));
    r
}


struct ExecState {
    bold: bool,
    italic: bool,
    underline: bool,
    strike: bool,
    code: bool,
    pre: bool,
    spoiler: bool,
    mention: bool,
    link: Option<String>,
    user: Option<i64>,
    emoji: Option<i64>,
}

impl ExecState {
    spec fn view(&self) -> EntityState {
        EntityState {
            bold: self.bold,
            italic: self.italic,
            underline: self.underline,
            strike: self.strike,
            code: self.code,
            pre: self.pre,
            spoiler: self.spoiler,
            mention: self.mention,
            link: match self.link {
                Some(l) => Some(l@),
                None => None,
            },
            user: self.user,
            emoji: self.emoji,
        }
    }

    fn update(&mut self, k: &EntityKind, start: bool)
        ensures
            final(self).view() == update_state(old(self).view(), *k, start),
    {
        match k {
            EntityKind::Bold => self.bold = start,
            EntityKind::Italic => self.italic = start,
            EntityKind::Underline => self.underline = start,
            EntityKind::Strike => self.strike = start,
            EntityKind::Code => self.code = start,
            EntityKind::Pre => self.pre = start,
            EntityKind::Spoiler => self.spoiler = start,
            EntityKind::Mention => self.mention = start,
            EntityKind::TextUrl { url } => {
                self.link = if start {
                    Some(url.clone())
                } else {
                    None
                };
            },
            EntityKind::MentionName { user_id } => {
                self.user = if start {
                    Some(*user_id)
                } else {
                    None
                };
            },
            EntityKind::CustomEmoji { document_id } => {
                self.emoji = if start {
                    Some(*document_id)
                } else {
                    None
                };
            },
            EntityKind::Other => {},
        }
    }
}

fn wrap_exec(tag: &str, child: Element) -> (e: Element)
    ensures
        e.view() == wrap(tag@, child.view()),
{
    let mut children: Vec<Element> = Vec::new();
    children.push(child);
    let e = Element { tag: tag.to_owned(), attrs: Vec::new(), children };
    proof {
        assert(children@.drop_last() == Seq::<Element>::empty());
        assert(children@ =~= Seq::<Element>::empty().push(child));
        crate::markup::lemma_elements_view_push(Seq::<Element>::empty(), child);
        assert(elements_view(Seq::<Element>::empty()) =~= Seq::<ElementView>::empty());
        assert(elements_view(children@) =~= seq![crate::element::element_view(child)]);
        assert(crate::element::attrs_view(e.attrs@) =~= Seq::<(Seq<char>, AttrView)>::empty());
    }
    e
}

fn leaf(tag: &str, attrs: Vec<(String, AttrValue)>) -> (e: Element)
    ensures
        e.view().tag == tag@,
        e.view().attrs == crate::element::attrs_view(attrs@),
        e.view().children == Seq::<ElementView>::empty(),
{
    let e = Element { tag: tag.to_owned(), attrs, children: Vec::new() };
    assert(elements_view(e.children@) =~= Seq::<ElementView>::empty());
    e
}

fn at_exec(id: String, name: String) -> (e: Element)
    ensures
        e.view() == at_view(id@, name@),
{
    let mut attrs: Vec<(String, AttrValue)> = Vec::new();
    attrs.push(("id".to_owned(), AttrValue::Str(id)));
    attrs.push(("name".to_owned(), AttrValue::Str(name)));
    let e = leaf("at", attrs);
    assert(crate::element::attrs_view(attrs@) =~= seq![("id"@, AttrView::Str(id@)), ("name"@, AttrView::Str(name@))]);
    e
}

fn decimal_string(n: i64) -> (s: String)
    ensures
        s@ == int_decimal(n as int),
{
    crate::text::i64_to_string(n)
}

/// `segment_element(st, content)`.
fn segment_element_exec(st: &ExecState, content: Vec<char>) -> (e: Element)
    requires
        content@.len() > 0,
        st.mention ==> (content@[0] as u32) < 0x80,
    ensures
        e.view() == segment_element(st.view(), content@),
{
    let ghost cv = content@;
    let text = string_of(content.as_slice());
    let mut e = Element::text(text.clone());
    assert(e.view() == text_view(cv));
    if st.bold {
        e = wrap_exec("b", e);
    }
    if st.italic {
        e = wrap_exec("i", e);
    }
    if st.underline {
        e = wrap_exec("u", e);
    }
    if st.strike {
        e = wrap_exec("s", e);
    }
    if st.code {
        e = wrap_exec("code", e);
    }
    if st.pre {
        e = wrap_exec("pre", e);
    }
    if st.spoiler {
        e = wrap_exec("spl", e);
    }
    if st.mention {
        let rest = string_of(&content.as_slice()[1..content.len()]);
        assert(rest@ == cv.drop_first());
        e = at_exec(rest.clone(), rest);
    }
    match &st.link {
        Some(h) => {
            let child = e;
            let mut children: Vec<Element> = Vec::new();
            children.push(child);
            let mut attrs: Vec<(String, AttrValue)> = Vec::new();
            attrs.push(("href".to_owned(), AttrValue::Str(h.clone())));
            e = Element { tag: "a".to_owned(), attrs, children };
            proof {
                assert(children@.drop_last() == Seq::<Element>::empty());
                assert(children@ =~= Seq::<Element>::empty().push(child));
        crate::markup::lemma_elements_view_push(Seq::<Element>::empty(), child);
        assert(elements_view(Seq::<Element>::empty()) =~= Seq::<ElementView>::empty());
        assert(elements_view(children@) =~= seq![crate::element::element_view(child)]);
                assert(crate::element::attrs_view(attrs@) =~= seq![("href"@, AttrView::Str(h@))]);
            }
        },
        None => {},
    }
    match st.user {
        Some(u) => {
            e = at_exec(decimal_string(u), text.clone());
        },
        None => {},
    }
    match st.emoji {
        Some(d) => {
            let mut attrs: Vec<(String, AttrValue)> = Vec::new();
            let ds = decimal_string(d);
            attrs.push(("id".to_owned(), AttrValue::Str(ds)));
            assert(crate::element::attrs_view(attrs@) =~= seq![("id"@, AttrView::Str(int_decimal(d as int)))]);
            e = leaf("emoji", attrs);
        },
        None => {},
    }
    if content.len() == 1 && content[0] == '\n' {
        assert(cv =~= seq!['\n']);
        e = leaf("br", Vec::new());
        assert(crate::element::attrs_view(Seq::<(String, AttrValue)>::empty()) =~= Seq::<(Seq<char>, AttrView)>::empty());
    } else {
        assert(cv != seq!['\n']) by {
            if cv == seq!['\n'] {
                assert(cv.len() == 1);
            }
        }
    }
    e
}

proof fn lemma_conv_failed_stays(units: Seq<u16>, es: Seq<MessageEntity>, cs: ConvState, bps: Seq<Breakpoint>)
    requires
        cs.failed,
    ensures
        conv_from(units, es, cs, bps).failed,
    decreases bps.len(),
{
    if bps.len() > 0 {
        lemma_conv_failed_stays(units, es, conv_step(units, es, cs, bps[0]), bps.drop_first());
    }
}

/// The Satori elements of a text with its entities; `None` where `entities_fail`.
fn convert_entities(text: &str, es: &[MessageEntity]) -> (r: Option<Vec<Element>>)
    ensures
        r is None <==> entities_fail(text@, es@),
        r matches Some(v) ==> elements_view(v@) == entities_to_elements(text@, es@),
{
    let units = to_utf16(text);
    let ghost uv = units@;
    let len = units.len();
    let mut k: usize = 0;
    while k < es.len()
        invariant
            k <= es.len(),
            uv == units@,
            uv == encode_utf16(text@),
            len == units.len(),
            forall|i: int|
                0 <= i < k && !(#[trigger] es@[i].kind is Other) ==> 0 <= es@[i].offset && 0
                    <= es@[i].length && es@[i].offset + es@[i].length <= len,
        decreases es.len() - k,
    {
        let e = &es[k];
        if let EntityKind::Other = &e.kind {
        } else {
            assert(*e == es@[k as int]);
            if e.offset < 0 || e.length < 0 || (e.offset as usize) > len || (e.length as usize) > len - (e.offset as usize) {
                assert(!entities_in_bounds(uv, es@)) by {
                    assert(!(es@[k as int].kind is Other));
                    assert(!(0 <= es@[k as int].offset && 0 <= es@[k as int].length && es@[k as int].offset + es@[k as int].length <= uv.len()));
                }
                return None;
            }
        }
        k = k + 1;
    }
    assert(entities_in_bounds(uv, es@));
    let mut bps = entity_breakpoints_exec(es, len);
    let ghost ebps = bps@;
    newline_breakpoints_exec(units.as_slice(), &mut bps);
    let ghost all = bps@;
    assert(forall|q: int| 0 <= q < all.len() ==> (#[trigger] all[q]).pos <= len && (all[q].entity matches Some(i) ==> i < es.len())) by {
        assert forall|q: int| 0 <= q < all.len() implies (#[trigger] all[q]).pos <= len && (all[q].entity matches Some(i) ==> i < es.len()) by {
            if q < ebps.len() {
                assert(all[q] == ebps[q]);
            }
        }
    }
    let sorted = sort_bps(bps);
    let ghost sv = bps_view(sorted@);
    let ghost init = ConvState { ent: no_formatting(), elements: Seq::empty(), last_pos: 0, failed: false };
    assert(sv == sort_breakpoints(entity_breakpoints(es@) + newline_breakpoints(uv, uv.len() as int)));
    let mut st = ExecState {
        bold: false,
        italic: false,
        underline: false,
        strike: false,
        code: false,
        pre: false,
        spoiler: false,
        mention: false,
        link: None,
        user: None,
        emoji: None,
    };
    let mut elements: Vec<Element> = Vec::new();
    let mut last_pos: usize = 0;
    let mut i: usize = 0;
    assert(sv.skip(0) == sv);
    while i < sorted.len()
        invariant
            i <= sorted.len(),
            sv == bps_view(sorted@),
            uv == units@,
            uv == encode_utf16(text@),
            entities_in_bounds(uv, es@),
            init == (ConvState { ent: no_formatting(), elements: Seq::empty(), last_pos: 0, failed: false }),
            sv == sort_breakpoints(entity_breakpoints(es@) + newline_breakpoints(uv, uv.len() as int)),
            len == units.len(),
            last_pos <= len,
            forall|q: int| 0 <= q < sorted.len() ==> (#[trigger] sorted@[q]).pos <= len && (sorted@[q].entity matches Some(j) ==> j < es.len()),
            conv_from(uv, es@, ConvState { ent: st.view(), elements: elements_view(elements@), last_pos: last_pos as int, failed: false }, sv.skip(i as int))
                == conv_from(uv, es@, init, sv),
        decreases sorted.len() - i,
    {
        let ghost cs = ConvState { ent: st.view(), elements: elements_view(elements@), last_pos: last_pos as int, failed: false };
        let b = &sorted[i];
        assert(sorted@[i as int] == *b);
        assert(sv.skip(i as int)[0] == b.view());
        assert(sv.skip(i as int).drop_first() == sv.skip(i + 1));
        let ghost next = conv_step(uv, es@, cs, b.view());
        assert(conv_from(uv, es@, cs, sv.skip(i as int)) == conv_from(uv, es@, next, sv.skip(i + 1)));
        if b.pos > last_pos {
            let content = from_utf16_lossy(&units.as_slice()[last_pos..b.pos]);
            assert(units@.subrange(last_pos as int, b.pos as int) == uv.subrange(last_pos as int, b.pos as int));
            proof {
                lemma_lossy_nonempty(uv.subrange(last_pos as int, b.pos as int));
            }
            if st.mention && (content[0] as u32) >= 0x80 {
                proof {
                    assert(next.failed);
                    lemma_conv_failed_stays(uv, es@, next, sv.skip(i + 1));
                }
                return None;
            }
            let ghost evs = elements_view(elements@);
            let ghost cv = content@;
            assert(cv == utf16_lossy(uv.subrange(last_pos as int, b.pos as int)));
            let seg = segment_element_exec(&st, content);
            let ghost old_el = elements@;
            elements.push(seg);
            proof {
                crate::markup::lemma_elements_view_push(old_el, seg);
                assert(old_el.push(seg) == elements@);
                assert(elements_view(elements@) == cs.elements.push(segment_element(cs.ent, cv)));
            }
        }
        let ghost mid_ent = st.view();
        match b.entity {
            Some(idx) => {
                st.update(&es[idx].kind, b.start);
                assert(st.view() == update_state(mid_ent, es@[idx as int].kind, b.start));
            },
            None => {},
        }
        assert(st.view() == next.ent);
        assert(elements_view(elements@) == next.elements);
        last_pos = b.pos;
        assert(last_pos == next.last_pos);
        assert(ConvState { ent: st.view(), elements: elements_view(elements@), last_pos: last_pos as int, failed: false } == next);
        i = i + 1;
    }
    assert(sv.skip(i as int) =~= Seq::<Breakpoint>::empty());
    if last_pos < len {
        let content = from_utf16_lossy(&units.as_slice()[last_pos..len]);
        let t = Element::text(string_of(content.as_slice()));
        let ghost old_el = elements@;
        elements.push(t);
        proof {
            crate::markup::lemma_elements_view_push(old_el, t);
            assert(old_el.push(t) == elements@);
            assert(units@.subrange(last_pos as int, len as int) == uv.subrange(last_pos as int, uv.len() as int));
        }
    }
    Some(elements)
}

proof fn lemma_lossy_nonempty(us: Seq<u16>)
    requires
        us.len() > 0,
    ensures
        utf16_lossy(us).len() > 0,
{
}

proof fn lemma_no_newline_breakpoints(units: Seq<u16>, n: int)
    requires
        n <= units.len(),
        forall|j: int| 0 <= j < n ==> units[j] != 10,
    ensures
        newline_breakpoints(units, n) == Seq::<Breakpoint>::empty(),
    decreases n,
{
    if n > 0 {
        lemma_no_newline_breakpoints(units, n - 1);
    }
}

proof fn lemma_single_entity(x: Seq<char>, k: EntityKind)
    requires
        x.len() > 0,
        forall|i: int| 0 <= i < x.len() ==> x[i] as u32 != 10,
        encode_utf16(x).len() <= i32::MAX,
        !(k is Other),
        k is Mention ==> (x[0] as u32) < 0x80,
    ensures
        ({
            let es = seq![MessageEntity { kind: k, offset: 0, length: encode_utf16(x).len() as i32 }];
            &&& !entities_fail(x, es)
            &&& entities_to_elements(x, es) == seq![segment_element(update_state(no_formatting(), k, true), x)]
            &&& x != seq!['\n']
        }),
{
    let units = encode_utf16(x);
    let n = units.len() as int;
    crate::utf16::lemma_utf16_no_line_feed(x);
    crate::utf16::lemma_utf16_round_trip(x);
    let e = MessageEntity { kind: k, offset: 0, length: n as i32 };
    let es = seq![e];
    assert(es.drop_last() =~= Seq::<MessageEntity>::empty());
    assert(es.last() == e);
    let b1 = Breakpoint { start: true, pos: 0, entity: Some(0) };
    let b2 = Breakpoint { start: false, pos: n, entity: Some(0) };
    assert(e.length as int == n);
    assert(!(e.kind is Other));
    assert(entity_breakpoints(es.drop_last()) == Seq::<Breakpoint>::empty());
    assert(entity_breakpoints(es) == Seq::<Breakpoint>::empty() + seq![b1, b2]);
    assert(Seq::<Breakpoint>::empty() + seq![b1, b2] =~= seq![b1, b2]);
    lemma_no_newline_breakpoints(units, n);
    let all = entity_breakpoints(es) + newline_breakpoints(units, n);
    assert(all =~= seq![b1, b2]);
    let two = seq![b1, b2];
    assert(two.drop_last() =~= seq![b1]);
    assert(seq![b1].drop_last() =~= Seq::<Breakpoint>::empty());
    assert(sort_breakpoints(Seq::<Breakpoint>::empty()) == Seq::<Breakpoint>::empty());
    assert(seq![b1].last() == b1);
    assert(sort_breakpoints(seq![b1]) == insert_breakpoint(Seq::empty(), b1));
    assert(sort_breakpoints(seq![b1]) == seq![b1]);
    assert(insert_breakpoint(seq![b1], b2) == seq![b1].push(b2));
    assert(seq![b1].push(b2) =~= two);
    assert(sort_breakpoints(two) == two);
    let cs0 = ConvState { ent: no_formatting(), elements: Seq::empty(), last_pos: 0, failed: false };
    let ent2 = update_state(no_formatting(), k, true);
    let cs1 = ConvState { ent: ent2, last_pos: 0, ..cs0 };
    assert(conv_step(units, es, cs0, b1) == cs1);
    assert(units.subrange(0, n) =~= units);
    assert(x[0] == utf16_lossy(units.subrange(0, n))[0]);
    let seg = segment_element(ent2, x);
    let ent3 = update_state(ent2, k, false);
    let cs2 = ConvState { ent: ent3, elements: seq![seg], last_pos: n, failed: false };
    assert(Seq::<ElementView>::empty().push(seg) =~= seq![seg]);
    assert(conv_step(units, es, cs1, b2) == cs2);
    assert(two[0] == b1);
    assert(two.drop_first() =~= seq![b2]);
    assert(seq![b2][0] == b2);
    assert(seq![b2].drop_first() =~= Seq::<Breakpoint>::empty());
    assert(conv_from(units, es, cs2, Seq::empty()) == cs2);
    assert(conv_from(units, es, cs1, seq![b2]) == cs2);
    assert(conv_from(units, es, cs0, two) == cs2);
    assert(conv_all(units, es) == cs2);
    assert(x != seq!['\n']) by {
        assert('\n' as u32 == 10);
        if x == seq!['\n'] {
            assert(x[0] == '\n');
        }
    }
}

proof fn lemma_newline_breakpoints_at(units: Seq<u16>, p: int, n: int)
    requires
        0 <= p < n <= units.len(),
        units[p] == 10,
        forall|j: int| 0 <= j < n && j != p ==> units[j] != 10,
    ensures
        newline_breakpoints(units, n) == seq![
            Breakpoint { start: true, pos: p, entity: None },
            Breakpoint { start: false, pos: p + 1, entity: None },
        ],
    decreases n,
{
    if n == p + 1 {
        lemma_no_newline_breakpoints(units, p);
        assert(Seq::<Breakpoint>::empty() + seq![
            Breakpoint { start: true, pos: p, entity: None },
            Breakpoint { start: false, pos: p + 1, entity: None },
        ] =~= seq![
            Breakpoint { start: true, pos: p, entity: None },
            Breakpoint { start: false, pos: p + 1, entity: None },
        ]);
    } else {
        lemma_newline_breakpoints_at(units, p, n - 1);
    }
}

/// A line break in a text without entities becomes a `br` element between the texts of
/// the two lines.
pub proof fn lemma_line_break(x: Seq<char>, y: Seq<char>)
    requires
        x.len() > 0,
        y.len() > 0,
        forall|i: int| 0 <= i < x.len() ==> x[i] as u32 != 10,
        forall|i: int| 0 <= i < y.len() ==> y[i] as u32 != 10,
    ensures
        entities_to_elements(x + seq!['\n'] + y, Seq::empty()) == seq![
            text_view(x),
            ElementView { tag: "br"@, attrs: Seq::empty(), children: Seq::empty() },
            text_view(y),
        ],
        !entities_fail(x + seq!['\n'] + y, Seq::empty()),
{
    let t = x + seq!['\n'] + y;
    let ux = encode_utf16(x);
    let uy = encode_utf16(y);
    crate::utf16::lemma_utf16_no_line_feed(x);
    crate::utf16::lemma_utf16_no_line_feed(y);
    crate::utf16::lemma_encode_concat(x, seq!['\n']);
    crate::utf16::lemma_encode_concat(x + seq!['\n'], y);
    let nl = seq!['\n'];
    assert(nl.drop_last() =~= Seq::<char>::empty());
    assert(nl.last() == '\n');
    assert(('\n' as u32) == 10);
    assert(char_utf16('\n') =~= seq![10u16]);
    assert(encode_utf16(nl) == encode_utf16(Seq::<char>::empty()) + char_utf16('\n'));
    assert(encode_utf16(nl) =~= seq![10u16]);
    let units = encode_utf16(t);
    assert(units =~= ux + seq![10u16] + uy);
    let p = ux.len() as int;
    let n = units.len() as int;
    assert forall|j: int| 0 <= j < n && j != p implies units[j] != 10 by {
        if j < p {
            assert(units[j] == ux[j]);
        } else {
            assert(units[j] == uy[j - p - 1]);
        }
    }
    assert(units[p] == 10);
    lemma_newline_breakpoints_at(units, p, n);
    let b1 = Breakpoint { start: true, pos: p, entity: None };
    let b2 = Breakpoint { start: false, pos: p + 1, entity: None };
    let two = seq![b1, b2];
    let es = Seq::<MessageEntity>::empty();
    assert(entity_breakpoints(es) == Seq::<Breakpoint>::empty());
    assert(entity_breakpoints(es) + newline_breakpoints(units, n) =~= two);
    assert(two.drop_last() =~= seq![b1]);
    assert(seq![b1].drop_last() =~= Seq::<Breakpoint>::empty());
    assert(sort_breakpoints(Seq::<Breakpoint>::empty()) == Seq::<Breakpoint>::empty());
    assert(seq![b1].last() == b1);
    assert(sort_breakpoints(seq![b1]) == insert_breakpoint(Seq::empty(), b1));
    assert(sort_breakpoints(seq![b1]) == seq![b1]);
    assert(insert_breakpoint(seq![b1], b2) == seq![b1].push(b2));
    assert(seq![b1].push(b2) =~= two);
    assert(sort_breakpoints(two) == two);
    crate::utf16::lemma_utf16_round_trip(x);
    crate::utf16::lemma_utf16_round_trip(y);
    crate::utf16::lemma_utf16_round_trip(nl);
    assert(units.subrange(0, p) =~= ux);
    assert(units.subrange(p, p + 1) =~= seq![10u16]);
    assert(units.subrange(p + 1, n) =~= uy);
    let cs0 = ConvState { ent: no_formatting(), elements: Seq::empty(), last_pos: 0, failed: false };
    assert(x != seq!['\n']) by {
        if x == seq!['\n'] {
            assert(x[0] == '\n');
        }
    }
    let e1 = segment_element(no_formatting(), x);
    assert(e1 == text_view(x));
    let cs1 = ConvState { elements: seq![e1], last_pos: p, ..cs0 };
    assert(Seq::<ElementView>::empty().push(e1) =~= seq![e1]);
    assert(conv_step(units, es, cs0, b1) == cs1);
    let br = ElementView { tag: "br"@, attrs: Seq::empty(), children: Seq::empty() };
    assert(segment_element(no_formatting(), nl) == br);
    let cs2 = ConvState { elements: seq![e1, br], last_pos: p + 1, ..cs0 };
    assert(seq![e1].push(br) =~= seq![e1, br]);
    assert(conv_step(units, es, cs1, b2) == cs2);
    assert(two[0] == b1);
    assert(two.drop_first() =~= seq![b2]);
    assert(seq![b2][0] == b2);
    assert(seq![b2].drop_first() =~= Seq::<Breakpoint>::empty());
    assert(conv_from(units, es, cs2, Seq::empty()) == cs2);
    assert(conv_from(units, es, cs1, seq![b2]) == cs2);
    assert(conv_from(units, es, cs0, two) == cs2);
    assert(conv_all(units, es) == cs2);
    assert(seq![e1, br].push(text_view(y)) =~= seq![text_view(x), br, text_view(y)]);
}

/// A formatting entity over a whole text without line breaks makes one element: the text
/// wrapped in the tag of its kind, and in no other: bold in `b`, italic in `i`, underline
/// in `u`, strikethrough in `s`, code in `code`, preformatted in `pre`, spoiler in `spl`.
pub proof fn lemma_style_entity(x: Seq<char>, k: EntityKind, tag: Seq<char>)
    requires
        x.len() > 0,
        forall|i: int| 0 <= i < x.len() ==> x[i] as u32 != 10,
        encode_utf16(x).len() <= i32::MAX,
        (k == EntityKind::Bold && tag == "b"@) || (k == EntityKind::Italic && tag == "i"@) || (k
            == EntityKind::Underline && tag == "u"@) || (k == EntityKind::Strike && tag == "s"@) || (k
            == EntityKind::Code && tag == "code"@) || (k == EntityKind::Pre && tag == "pre"@) || (k
            == EntityKind::Spoiler && tag == "spl"@),
    ensures
        ({
            let es = seq![MessageEntity { kind: k, offset: 0, length: encode_utf16(x).len() as i32 }];
            &&& !entities_fail(x, es)
            &&& entities_to_elements(x, es) == seq![
                ElementView { tag, attrs: Seq::empty(), children: seq![text_view(x)] },
            ]
        }),
{
    lemma_single_entity(x, k);
    reveal_strlit("b");
    reveal_strlit("i");
    reveal_strlit("u");
    reveal_strlit("s");
    reveal_strlit("code");
    reveal_strlit("pre");
    reveal_strlit("spl");
}

/// An entity over a whole text without line breaks that links or names: a link wraps the
/// text in `a` with the link as `href`; a mention of a username becomes `at` with the text
/// after its first character as `id` and `name`; a mention of a user by id becomes `at`
/// with that id and the text as `name`; a custom emoji becomes `emoji` with its document
/// id, the text dropped.
pub proof fn lemma_link_entity(x: Seq<char>, k: EntityKind)
    requires
        x.len() > 0,
        forall|i: int| 0 <= i < x.len() ==> x[i] as u32 != 10,
        encode_utf16(x).len() <= i32::MAX,
        k is Mention ==> (x[0] as u32) < 0x80,
    ensures
        ({
            let es = seq![MessageEntity { kind: k, offset: 0, length: encode_utf16(x).len() as i32 }];
            let r = entities_to_elements(x, es);
            &&& k matches EntityKind::TextUrl { url } ==> !entities_fail(x, es) && r == seq![
                ElementView {
                    tag: "a"@,
                    attrs: seq![("href"@, AttrView::Str(url@))],
                    children: seq![text_view(x)],
                },
            ]
            &&& k is Mention ==> !entities_fail(x, es) && r == seq![
                ElementView {
                    tag: "at"@,
                    attrs: seq![("id"@, AttrView::Str(x.drop_first())), ("name"@, AttrView::Str(x.drop_first()))],
                    children: Seq::empty(),
                },
            ]
            &&& k matches EntityKind::MentionName { user_id } ==> !entities_fail(x, es) && r == seq![
                ElementView {
                    tag: "at"@,
                    attrs: seq![("id"@, AttrView::Str(int_decimal(user_id as int))), ("name"@, AttrView::Str(x))],
                    children: Seq::empty(),
                },
            ]
            &&& k matches EntityKind::CustomEmoji { document_id } ==> !entities_fail(x, es) && r == seq![
                ElementView {
                    tag: "emoji"@,
                    attrs: seq![("id"@, AttrView::Str(int_decimal(document_id as int)))],
                    children: Seq::empty(),
                },
            ]
        }),
{
    if !(k is Other) {
        lemma_single_entity(x, k);
    }
}

proof fn lemma_keys_unique_push(es: Seq<ElementView>, e: ElementView)
    requires
        elems_keys_unique(es),
        elem_keys_unique(e),
    ensures
        elems_keys_unique(es.push(e)),
{
    assert(es.push(e).drop_last() =~= es);
}

proof fn lemma_keys_unique_concat(a: Seq<ElementView>, b: Seq<ElementView>)
    requires
        elems_keys_unique(a),
        elems_keys_unique(b),
    ensures
        elems_keys_unique(a + b),
    decreases b.len(),
{
    if b.len() == 0 {
        assert(a + b =~= a);
    } else {
        lemma_keys_unique_concat(a, b.drop_last());
        lemma_keys_unique_push(a + b.drop_last(), b.last());
        assert((a + b.drop_last()).push(b.last()) =~= a + b);
    }
}

proof fn lemma_single_attr_unique(attrs: Seq<(Seq<char>, AttrView)>)
    requires
        attrs.len() <= 1,
    ensures
        attrs_unique(attrs),
{
}

proof fn lemma_leaf_unique(e: ElementView)
    requires
        attrs_unique(e.attrs),
        e.children.len() == 0,
    ensures
        elem_keys_unique(e),
{
}

proof fn lemma_wrap_unique(tag: Seq<char>, child: ElementView)
    requires
        elem_keys_unique(child),
    ensures
        elem_keys_unique(wrap(tag, child)),
{
    lemma_keys_unique_push(Seq::empty(), child);
    assert(Seq::<ElementView>::empty().push(child) =~= seq![child]);
}

proof fn lemma_two_keys_unique(a: Seq<char>, b: Seq<char>, x: AttrView, y: AttrView)
    requires
        a != b,
    ensures
        attrs_unique(seq![(a, x), (b, y)]),
{
}

proof fn lemma_segment_unique(st: EntityState, content: Seq<char>)
    ensures
        elem_keys_unique(segment_element(st, content)),
{
    reveal_strlit("id");
    reveal_strlit("name");
    let e0 = text_view(content);
    lemma_leaf_unique(e0);
    let e1 = if st.bold { wrap("b"@, e0) } else { e0 };
    lemma_wrap_unique("b"@, e0);
    let e2 = if st.italic { wrap("i"@, e1) } else { e1 };
    lemma_wrap_unique("i"@, e1);
    let e3 = if st.underline { wrap("u"@, e2) } else { e2 };
    lemma_wrap_unique("u"@, e2);
    let e4 = if st.strike { wrap("s"@, e3) } else { e3 };
    lemma_wrap_unique("s"@, e3);
    let e5 = if st.code { wrap("code"@, e4) } else { e4 };
    lemma_wrap_unique("code"@, e4);
    let e6 = if st.pre { wrap("pre"@, e5) } else { e5 };
    lemma_wrap_unique("pre"@, e5);
    let e7 = if st.spoiler { wrap("spl"@, e6) } else { e6 };
    lemma_wrap_unique("spl"@, e6);
    assert("id"@ != "name"@) by {
        assert("id"@.len() != "name"@.len());
    }
    lemma_two_keys_unique("id"@, "name"@, AttrView::Str(content.drop_first()), AttrView::Str(content.drop_first()));
    lemma_leaf_unique(at_view(content.drop_first(), content.drop_first()));
    let e8 = if st.mention { at_view(content.drop_first(), content.drop_first()) } else { e7 };
    match st.link {
        Some(h) => {
            let a = ElementView { tag: "a"@, attrs: seq![("href"@, AttrView::Str(h))], children: seq![e8] };
            lemma_keys_unique_push(Seq::empty(), e8);
            assert(Seq::<ElementView>::empty().push(e8) =~= seq![e8]);
            assert(elem_keys_unique(a));
        },
        None => {},
    }
    match st.user {
        Some(u) => {
            lemma_two_keys_unique("id"@, "name"@, AttrView::Str(int_decimal(u as int)), AttrView::Str(content));
            lemma_leaf_unique(at_view(int_decimal(u as int), content));
        },
        None => {},
    }
}

proof fn lemma_conv_keys_unique(units: Seq<u16>, es: Seq<MessageEntity>, cs: ConvState, bps: Seq<Breakpoint>)
    requires
        elems_keys_unique(cs.elements),
    ensures
        elems_keys_unique(conv_from(units, es, cs, bps).elements),
    decreases bps.len(),
{
    if bps.len() > 0 {
        let bp = bps[0];
        if !cs.failed && bp.pos > cs.last_pos {
            let content = utf16_lossy(units.subrange(cs.last_pos, bp.pos));
            lemma_segment_unique(cs.ent, content);
            lemma_keys_unique_push(cs.elements, segment_element(cs.ent, content));
        }
        lemma_conv_keys_unique(units, es, conv_step(units, es, cs, bp), bps.drop_first());
    }
}

/// The elements read from a text and its entities hold no attribute key twice.
proof fn lemma_entities_keys_unique(text: Seq<char>, es: Seq<MessageEntity>)
    ensures
        elems_keys_unique(entities_to_elements(text, es)),
{
    let units = encode_utf16(text);
    let bps = sort_breakpoints(entity_breakpoints(es) + newline_breakpoints(units, units.len() as int));
    let cs0 = ConvState { ent: no_formatting(), elements: Seq::empty(), last_pos: 0, failed: false };
    lemma_conv_keys_unique(units, es, cs0, bps);
    let cs = conv_all(units, es);
    if cs.last_pos < units.len() {
        let t = text_view(utf16_lossy(units.subrange(cs.last_pos, units.len() as int)));
        lemma_leaf_unique(t);
        lemma_keys_unique_push(cs.elements, t);
    }
}

/// The Satori elements of a Telegram text with its formatting entities (offsets and
/// lengths in UTF-16 code units): the text is cut at the ends of the entities and at
/// line breaks, and each run becomes an element with the formatting in force.
pub fn satori_element_from_tg_entities(text: &str, entities: Option<&[MessageEntity]>) -> (r: Vec<Element>)
    requires
        !entities_fail(text@, entity_seq(entities)),
    ensures
        elements_view(r@) == entities_to_elements(text@, entity_seq(entities)),
        elems_keys_unique(elements_view(r@)),
{
    proof {
        lemma_entities_keys_unique(text@, entity_seq(entities));
    }
    let empty: Vec<MessageEntity> = Vec::new();
    let es: &[MessageEntity] = match entities {
        Some(s) => s,
        None => empty.as_slice(),
    };
    assert(es@ == entity_seq(entities));
    match convert_entities(text, es) {
        Some(v) => v,
        None => Vec::new(),
    }
}

/// Whether `satori_element_from_tg_entities` is out of its domain for this text and
/// these entities.
pub fn entities_would_fail(text: &str, entities: Option<&[MessageEntity]>) -> (r: bool)
    ensures
        r == entities_fail(text@, entity_seq(entities)),
{
    let empty: Vec<MessageEntity> = Vec::new();
    let es: &[MessageEntity] = match entities {
        Some(s) => s,
        None => empty.as_slice(),
    };
    assert(es@ == entity_seq(entities));
    convert_entities(text, es).is_none()
}


/// The thread a message belongs to in a forum: the top message of its topic, else the
/// message it replies to; none outside forum topics.
pub open spec fn thread_of(h: Option<ReplyHeader>) -> Option<i32> {
    match h {
        Some(h) => if h.forum_topic {
            match h.reply_to_top_id {
                Some(t) => Some(t),
                None => h.reply_to_msg_id,
            }
        } else {
            None
        },
        None => None,
    }
}

pub open spec fn opt_entities(es: Option<Vec<MessageEntity>>) -> Seq<MessageEntity> {
    match es {
        Some(v) => v@,
        None => Seq::empty(),
    }
}

/// What a message replies to: the message, its chat, and the quoted text with its
/// entities.
pub struct ReplyView {
    pub msg_id: i32,
    pub peer_id: i64,
    pub quote: Option<(Seq<char>, Seq<MessageEntity>)>,
}

/// The reply of a message: there is one where the header names both a message and a chat,
/// unless it only places the message in a forum topic.
pub open spec fn reply_of(h: Option<ReplyHeader>) -> Option<ReplyView> {
    match h {
        Some(h) => if !h.forum_topic || h.reply_to_top_id is Some {
            match (h.reply_to_msg_id, h.reply_to_peer_id) {
                (Some(m), Some(p)) => Some(
                    ReplyView {
                        msg_id: m,
                        peer_id: p,
                        quote: match h.quote_text {
                            Some(t) => Some((t@, opt_entities(h.quote_entities))),
                            None => None,
                        },
                    },
                ),
                _ => None,
            }
        } else {
            None
        },
        None => None,
    }
}

pub open spec fn str_attr(key: Seq<char>, value: Seq<char>) -> (Seq<char>, AttrView) {
    (key, AttrView::Str(value))
}

pub open spec fn leaf_view(tag: Seq<char>, attrs: Seq<(Seq<char>, AttrView)>) -> ElementView {
    ElementView { tag, attrs, children: Seq::empty() }
}

/// The `quote` element of a reply: the author, then the quoted text.
pub open spec fn quote_view(r: ReplyView) -> ElementView {
    ElementView {
        tag: "quote"@,
        attrs: seq![str_attr("id"@, int_decimal(r.msg_id as int))],
        children: seq![leaf_view("author"@, seq![str_attr("id"@, int_decimal(r.peer_id as int))])] + match r.quote {
            Some(q) => entities_to_elements(q.0, q.1),
            None => Seq::empty(),
        },
    }
}

/// The tag of a document: a video for animations, videos and round videos, an audio for
/// audio files and voice notes, else a file.
pub open spec fn document_tag(attrs: Seq<DocAttr>, video: bool, round: bool, voice: bool) -> Seq<char> {
    if has_animated(attrs) || video || round {
        "video"@
    } else if has_audio(attrs) || voice {
        "audio"@
    } else {
        "file"@
    }
}

/// The elements of the media of a message.
pub open spec fn media_elements(self_id: i64, m: Option<MediaInfo>) -> Seq<ElementView> {
    match m {
        Some(MediaInfo::Geo { latitude, longitude }) => seq![
            leaf_view("location"@, seq![str_attr("lat"@, latitude@), str_attr("lon"@, longitude@)]),
        ],
        Some(MediaInfo::Photo { photo: Some(p) }) => match photo_link(self_id, p) {
            Some(src) => seq![leaf_view("img"@, seq![str_attr("src"@, src)])],
            None => Seq::empty(),
        },
        Some(MediaInfo::Sticker { document: Some(d), emoji }) => seq![
            leaf_view("img"@, seq![str_attr("src"@, document_link(self_id, d)), str_attr("title"@, emoji@)]),
        ],
        Some(MediaInfo::Document { info: Some(d), video, round, voice }) => seq![
            leaf_view(
                document_tag(d.attrs@, video, round, voice),
                seq![str_attr("src"@, document_link(self_id, d.raw))] + match first_filename(d.attrs@) {
                    Some(n) => seq![str_attr("title"@, n)],
                    None => Seq::empty(),
                },
            ),
        ],
        _ => Seq::empty(),
    }
}

/// The Satori elements of a Telegram message: the quote it replies with, its text and its
/// media.
pub open spec fn message_elements(self_id: i64, m: MessageInfo) -> Seq<ElementView> {
    (match reply_of(m.reply_header) {
        Some(r) => seq![quote_view(r)],
        None => Seq::empty(),
    }) + entities_to_elements(m.text@, opt_entities(m.entities)) + media_elements(self_id, m.media)
}

/// The elements of a message hold no attribute key twice.
proof fn lemma_message_keys_unique(self_id: i64, m: MessageInfo)
    ensures
        elems_keys_unique(message_elements(self_id, m)),
{
    reveal_strlit("lat");
    reveal_strlit("lon");
    reveal_strlit("src");
    reveal_strlit("title");
    let reply_part: Seq<ElementView> = match reply_of(m.reply_header) {
        Some(r) => seq![quote_view(r)],
        None => Seq::empty(),
    };
    match reply_of(m.reply_header) {
        Some(r) => {
            let author = leaf_view("author"@, seq![str_attr("id"@, int_decimal(r.peer_id as int))]);
            lemma_leaf_unique(author);
            lemma_keys_unique_push(Seq::empty(), author);
            assert(Seq::<ElementView>::empty().push(author) =~= seq![author]);
            let quoted = match r.quote {
                Some(q) => entities_to_elements(q.0, q.1),
                None => Seq::empty(),
            };
            match r.quote {
                Some(q) => lemma_entities_keys_unique(q.0, q.1),
                None => {},
            }
            lemma_keys_unique_concat(seq![author], quoted);
            let qv = quote_view(r);
            assert(elem_keys_unique(qv));
            lemma_keys_unique_push(Seq::empty(), qv);
            assert(Seq::<ElementView>::empty().push(qv) =~= reply_part);
        },
        None => {},
    }
    lemma_entities_keys_unique(m.text@, opt_entities(m.entities));
    let media = media_elements(self_id, m.media);
    assert(elems_keys_unique(media)) by {
        if media.len() > 0 {
            let e = media[0];
            assert(media.len() == 1);
            assert("lat"@ != "lon"@) by {
                assert("lat"@[1] != "lon"@[1]);
            }
            assert("src"@ != "title"@) by {
                assert("src"@.len() != "title"@.len());
            }
            match m.media {
                Some(MediaInfo::Document { info: Some(d), video, round, voice }) => {
                    match first_filename(d.attrs@) {
                        Some(n) => {
                            assert(e.attrs =~= seq![str_attr("src"@, document_link(self_id, d.raw)), str_attr("title"@, n)]);
                        },
                        None => {},
                    }
                },
                _ => {},
            }
            assert(attrs_unique(e.attrs));
            lemma_leaf_unique(e);
            lemma_keys_unique_push(Seq::empty(), e);
            assert(Seq::<ElementView>::empty().push(e) =~= media);
        }
    }
    lemma_keys_unique_concat(reply_part, entities_to_elements(m.text@, opt_entities(m.entities)));
    lemma_keys_unique_concat(reply_part + entities_to_elements(m.text@, opt_entities(m.entities)), media);
}

/// A reply outside forum topics, to a message of a chat, opens the elements of its
/// message with a `quote` of that message's id, holding an `author` with the chat's id and
/// then the quoted text; a message outside forum topics is in no thread, and one in a
/// forum topic is in the thread of the topic's top message, else of the message it
/// replies to.
pub proof fn lemma_reply_quote(self_id: i64, m: MessageInfo, h: ReplyHeader, mid: i32, pid: i64)
    requires
        m.reply_header == Some(h),
    ensures
        !h.forum_topic && h.reply_to_msg_id == Some(mid) && h.reply_to_peer_id == Some(pid) ==> message_elements(
            self_id,
            m,
        )[0] == (ElementView {
            tag: "quote"@,
            attrs: seq![("id"@, AttrView::Str(int_decimal(mid as int)))],
            children: seq![
                ElementView {
                    tag: "author"@,
                    attrs: seq![("id"@, AttrView::Str(int_decimal(pid as int)))],
                    children: Seq::empty(),
                },
            ] + match h.quote_text {
                Some(t) => entities_to_elements(t@, opt_entities(h.quote_entities)),
                None => Seq::empty(),
            },
        }),
        !h.forum_topic ==> thread_of(m.reply_header) is None,
        h.forum_topic ==> thread_of(m.reply_header) == (if h.reply_to_top_id is Some {
            h.reply_to_top_id
        } else {
            h.reply_to_msg_id
        }),
{
    if !h.forum_topic && h.reply_to_msg_id == Some(mid) && h.reply_to_peer_id == Some(pid) {
        let r = reply_of(m.reply_header).unwrap();
        let q = quote_view(r);
        let rest = entities_to_elements(m.text@, opt_entities(m.entities)) + media_elements(self_id, m.media);
        assert(message_elements(self_id, m) == seq![q] + entities_to_elements(m.text@, opt_entities(m.entities))
            + media_elements(self_id, m.media));
        assert((seq![q] + entities_to_elements(m.text@, opt_entities(m.entities)) + media_elements(self_id, m.media))[0] == q);
    }
}

/// The Satori message for a Telegram message: its id in decimal, its content the markup
/// of its elements, its channel and guild those of the chat (in its forum thread), its
/// user the sender (else the chat), sent at its date and edited at its edit date.
pub proof fn lemma_message_view(self_id: i64, m: MessageInfo)
    ensures
        ({
            let v = message_view_of(self_id, m);
            &&& v.id == int_decimal(m.id as int)
            &&& v.content == markup_views(message_elements(self_id, m))
            &&& v.created_at == Some(m.date)
            &&& v.updated_at == m.edit_date
            &&& v.member is None
            &&& m.peer matches Some(p) ==> v.channel == Some(channel_from_peer(p, thread_of(m.reply_header)))
                && v.guild == guild_from_peer(self_id, p)
            &&& m.peer is None ==> v.channel is None && v.guild is None
            &&& m.sender matches Some(s) ==> v.user == Some(user_from_peer(self_id, s))
            &&& m.sender is None ==> v.user == match m.peer {
                Some(p) => Some(user_from_peer(self_id, p)),
                None => None::<crate::convert::UserView>,
            }
        }),
{
}

/// The element for a location, a photo or a sticker comes last among the elements of its
/// message: a `location` with its latitude and longitude; an `img` with the link to the
/// photo; an `img` with the link to the sticker and its emoji as `title`.  A message
/// without media ends with the elements of its text.
pub proof fn lemma_media_element(self_id: i64, m: MessageInfo)
    ensures
        ({
            let es = message_elements(self_id, m);
            let head = (match reply_of(m.reply_header) {
                Some(r) => seq![quote_view(r)],
                None => Seq::<ElementView>::empty(),
            }) + entities_to_elements(m.text@, opt_entities(m.entities));
            &&& m.media matches Some(MediaInfo::Geo { latitude, longitude }) ==> es == head.push(
                ElementView {
                    tag: "location"@,
                    attrs: seq![("lat"@, AttrView::Str(latitude@)), ("lon"@, AttrView::Str(longitude@))],
                    children: Seq::empty(),
                },
            )
            &&& m.media matches Some(MediaInfo::Photo { photo: Some(p) }) ==> match photo_link(self_id, p) {
                Some(src) => es == head.push(
                    ElementView { tag: "img"@, attrs: seq![("src"@, AttrView::Str(src))], children: Seq::empty() },
                ),
                None => es == head,
            }
            &&& m.media matches Some(MediaInfo::Sticker { document: Some(d), emoji }) ==> es == head.push(
                ElementView {
                    tag: "img"@,
                    attrs: seq![("src"@, AttrView::Str(document_link(self_id, d))), ("title"@, AttrView::Str(emoji@))],
                    children: Seq::empty(),
                },
            )
            &&& m.media is None ==> es == head
        }),
{
    let head = (match reply_of(m.reply_header) {
        Some(r) => seq![quote_view(r)],
        None => Seq::<ElementView>::empty(),
    }) + entities_to_elements(m.text@, opt_entities(m.entities));
    let media = media_elements(self_id, m.media);
    assert(message_elements(self_id, m) == head + media);
    if media.len() == 1 {
        assert(head + media =~= head.push(media[0]));
    } else if media.len() == 0 {
        assert(head + media =~= head);
    }
}

/// The element for a document comes last among the elements of its message, links to the
/// document, and is a `video` for an animation, a video or a round video; else an `audio`
/// for a voice note or an audio file; else a `file`.
pub proof fn lemma_document_element(
    self_id: i64,
    m: MessageInfo,
    d: DocumentInfo,
    video: bool,
    round: bool,
    voice: bool,
)
    requires
        m.media == Some(MediaInfo::Document { info: Some(d), video, round, voice }),
    ensures
        ({
            let es = message_elements(self_id, m);
            let e = es.last();
            let animated = exists|i: int| 0 <= i < d.attrs@.len() && d.attrs@[i] is Animated;
            let audio = exists|i: int| 0 <= i < d.attrs@.len() && d.attrs@[i] is Audio;
            &&& es.len() > 0
            &&& e.children.len() == 0
            &&& e.attrs.len() > 0
            &&& e.attrs[0] == ("src"@, AttrView::Str(document_link(self_id, d.raw)))
            &&& (animated || video || round) ==> e.tag == "video"@
            &&& !(animated || video || round) && (audio || voice) ==> e.tag == "audio"@
            &&& !(animated || video || round || audio || voice) ==> e.tag == "file"@
        }),
{
    let media = media_elements(self_id, m.media);
    let head = (match reply_of(m.reply_header) {
        Some(r) => seq![quote_view(r)],
        None => Seq::<ElementView>::empty(),
    }) + entities_to_elements(m.text@, opt_entities(m.entities));
    assert(media.len() == 1);
    assert(message_elements(self_id, m) == head + media);
    assert((head + media).last() == media[0]);
}

/// The sizes of a photo have areas that fit in an `i32`, and its parts fit the file id.
pub open spec fn photo_fits(p: RawPhoto) -> bool {
    &&& areas_fit(p.sizes@)
    &&& p.file_reference.len() <= usize::MAX / 8
    &&& forall|i: int| 0 <= i < p.sizes.len() ==> match #[trigger] p.sizes@[i] {
        PhotoSizeInfo::Size { kind, .. } => vstd::utf8::encode_utf8(kind@).len() <= usize::MAX / 8,
        PhotoSizeInfo::Progressive { kind, .. } => vstd::utf8::encode_utf8(kind@).len() <= usize::MAX / 8,
        PhotoSizeInfo::Other => true,
    }
}

pub open spec fn media_fits(m: Option<MediaInfo>) -> bool {
    match m {
        Some(MediaInfo::Photo { photo: Some(p) }) => photo_fits(p),
        Some(MediaInfo::Sticker { document: Some(d), .. }) => d.file_reference.len() <= usize::MAX / 4,
        Some(MediaInfo::Document { info: Some(d), .. }) => d.raw.file_reference.len() <= usize::MAX / 4,
        _ => true,
    }
}

/// The message lies in the domain of the conversion: its text and the quote it replies
/// with convert (see `entities_fail`), and its media fits.
pub open spec fn message_fits(m: MessageInfo) -> bool {
    &&& !entities_fail(m.text@, opt_entities(m.entities))
    &&& match reply_of(m.reply_header) {
        Some(r) => match r.quote {
            Some(q) => !entities_fail(q.0, q.1),
            None => true,
        },
        None => true,
    }
    &&& media_fits(m.media)
}

/// The Satori message for a Telegram message.
pub open spec fn message_view_of(self_id: i64, m: MessageInfo) -> MessageView {
    MessageView {
        id: int_decimal(m.id as int),
        content: markup_views(message_elements(self_id, m)),
        channel: match m.peer {
            Some(p) => Some(channel_from_peer(p, thread_of(m.reply_header))),
            None => None,
        },
        guild: match m.peer {
            Some(p) => guild_from_peer(self_id, p),
            None => None,
        },
        member: None,
        user: match m.sender {
            Some(s) => Some(user_from_peer(self_id, s)),
            None => match m.peer {
                Some(p) => Some(user_from_peer(self_id, p)),
                None => None,
            },
        },
        created_at: Some(m.date),
        updated_at: m.edit_date,
    }
}

fn extract_thread_id(message: &MessageInfo) -> (r: Option<i32>)
    ensures
        r == thread_of(message.reply_header),
{
    match &message.reply_header {
        Some(h) if h.forum_topic => match h.reply_to_top_id {
            Some(t) => Some(t),
            None => h.reply_to_msg_id,
        },
        _ => None,
    }
}

struct ReplyInfo<'a> {
    msg_id: i32,
    peer_id: i64,
    quote: Option<(&'a str, Option<&'a [MessageEntity]>)>,
}

fn extract_reply_info<'a>(message: &'a MessageInfo) -> (r: Option<ReplyInfo<'a>>)
    ensures
        match (r, reply_of(message.reply_header)) {
            (Some(i), Some(v)) => i.msg_id == v.msg_id && i.peer_id == v.peer_id && match (i.quote, v.quote) {
                (Some(a), Some(b)) => a.0@ == b.0 && entity_seq(a.1) == b.1,
                (None, None) => true,
                _ => false,
            },
            (None, None) => true,
            _ => false,
        },
{
    match &message.reply_header {
        Some(h) if !h.forum_topic || h.reply_to_top_id.is_some() => {
            let msg_id = match h.reply_to_msg_id {
                Some(m) => m,
                None => {
                    return None;
                },
            };
            let peer_id = match h.reply_to_peer_id {
                Some(p) => p,
                None => {
                    return None;
                },
            };
            let quote = match &h.quote_text {
                Some(t) => {
                    let es: Option<&[MessageEntity]> = match &h.quote_entities {
                        Some(v) => Some(v.as_slice()),
                        None => None,
                    };
                    Some((t.as_str(), es))
                },
                None => None,
            };
            Some(ReplyInfo { msg_id, peer_id, quote })
        },
        _ => None,
    }
}

fn str_attr_exec(key: &str, value: String) -> (r: (String, AttrValue))
    ensures
        r.0@ == key@,
        attr_view(r.1) == AttrView::Str(value@),
{
    (key.to_owned(), AttrValue::Str(value))
}

fn media_element(self_id: i64, media: &Option<MediaInfo>) -> (r: Option<Element>)
    requires
        media_fits(*media),
    ensures
        match r {
            Some(e) => media_elements(self_id, *media) == seq![element_view(e)],
            None => media_elements(self_id, *media) == Seq::<ElementView>::empty(),
        },
{
    match media {
        Some(MediaInfo::Geo { latitude, longitude }) => {
            let mut attrs: Vec<(String, AttrValue)> = Vec::new();
            attrs.push(str_attr_exec("lat", latitude.clone()));
            attrs.push(str_attr_exec("lon", longitude.clone()));
            assert(attrs_view(attrs@) =~= seq![str_attr("lat"@, latitude@), str_attr("lon"@, longitude@)]);
            Some(leaf("location", attrs))
        },
        Some(MediaInfo::Photo { photo: Some(p) }) => match satori_link_from_tg_photo(self_id, p) {
            Some(src) => {
                let mut attrs: Vec<(String, AttrValue)> = Vec::new();
                let ghost s = src@;
                attrs.push(str_attr_exec("src", src));
                assert(attrs_view(attrs@) =~= seq![str_attr("src"@, s)]);
                Some(leaf("img", attrs))
            },
            None => None,
        },
        Some(MediaInfo::Sticker { document: Some(d), emoji }) => {
            let src = satori_link_from_tg_document(self_id, d);
            let ghost s = src@;
            let mut attrs: Vec<(String, AttrValue)> = Vec::new();
            attrs.push(str_attr_exec("src", src));
            attrs.push(str_attr_exec("title", emoji.clone()));
            assert(attrs_view(attrs@) =~= seq![str_attr("src"@, s), str_attr("title"@, emoji@)]);
            Some(leaf("img", attrs))
        },
        Some(MediaInfo::Document { info: Some(d), video, round, voice }) => {
            let src = satori_link_from_tg_document(self_id, &d.raw);
            let ghost s = src@;
            let tag = if is_animated(d.attrs.as_slice()) || *video || *round {
                "video"
            } else if is_audio(d.attrs.as_slice()) || *voice {
                "audio"
            } else {
                "file"
            };
            assert(tag@ == document_tag(d.attrs@, *video, *round, *voice));
            let mut attrs: Vec<(String, AttrValue)> = Vec::new();
            attrs.push(str_attr_exec("src", src));
            let ghost first = attrs@;
            assert(attrs_view(first) =~= seq![str_attr("src"@, s)]);
            match document_name(d.attrs.as_slice()) {
                Some(n) => {
                    attrs.push(str_attr_exec("title", n.to_owned()));
                    assert(attrs_view(attrs@) =~= seq![str_attr("src"@, s)] + seq![str_attr("title"@, n@)]);
                },
                None => {
                    assert(attrs_view(attrs@) =~= seq![str_attr("src"@, s)] + Seq::empty());
                },
            }
            Some(leaf(tag, attrs))
        },
        _ => None,
    }
}

fn opt_slice(v: &Option<Vec<MessageEntity>>) -> (r: Option<&[MessageEntity]>)
    ensures
        entity_seq(r) == opt_entities(*v),
{
    match v {
        Some(v) => Some(v.as_slice()),
        None => None,
    }
}

/// The Satori elements of a Telegram message: a `quote` of the message it replies to
/// (with the author and the quoted text), the elements of its text, and an element for its
/// location, photo, sticker or document.
pub fn satori_elements_from_tg_message(self_id: i64, message: &MessageInfo) -> (r: Vec<Element>)
    requires
        message_fits(*message),
    ensures
        elements_view(r@) == message_elements(self_id, *message),
        elems_keys_unique(elements_view(r@)),
{
    proof {
        lemma_message_keys_unique(self_id, *message);
    }
    let mut elements: Vec<Element> = Vec::new();
    let info = extract_reply_info(message);
    let ghost reply_part: Seq<ElementView> = match reply_of(message.reply_header) {
        Some(r) => seq![quote_view(r)],
        None => Seq::empty(),
    };
    match info {
        Some(info) => {
            let ghost rv = reply_of(message.reply_header).unwrap();
            let mut author_attrs: Vec<(String, AttrValue)> = Vec::new();
            let pid = i64_to_string(info.peer_id);
            author_attrs.push(str_attr_exec("id", pid));
            assert(attrs_view(author_attrs@) =~= seq![str_attr("id"@, int_decimal(info.peer_id as int))]);
            let author = leaf("author", author_attrs);
            assert(element_view(author) == leaf_view(
                "author"@,
                seq![str_attr("id"@, int_decimal(rv.peer_id as int))],
            ));
            let mut quote_elements: Vec<Element> = Vec::new();
            quote_elements.push(author);
            let ghost head = quote_elements@;
            proof {
                assert(head =~= Seq::<Element>::empty().push(author));
                crate::markup::lemma_elements_view_push(Seq::<Element>::empty(), author);
                assert(elements_view(Seq::<Element>::empty()) =~= Seq::<ElementView>::empty());
                assert(elements_view(head) =~= seq![element_view(author)]);
            }
            match info.quote {
                Some((text, entities)) => {
                    let mut more = satori_element_from_tg_entities(text, entities);
                    let ghost m = more@;
                    quote_elements.append(&mut more);
                    proof {
                        crate::element::lemma_elements_view_concat(head, m);
                    }
                },
                None => {
                    assert(quote_elements@ == head + Seq::<Element>::empty());
                },
            }
            let mut quote_attrs: Vec<(String, AttrValue)> = Vec::new();
            let mid = i64_to_string(info.msg_id as i64);
            quote_attrs.push(str_attr_exec("id", mid));
            assert(attrs_view(quote_attrs@) =~= seq![str_attr("id"@, int_decimal(rv.msg_id as int))]);
            let quote = Element { tag: "quote".to_owned(), attrs: quote_attrs, children: quote_elements };
            assert(element_view(quote) == quote_view(rv));
            elements.push(quote);
            proof {
                assert(elements@.drop_last() =~= Seq::<Element>::empty());
                assert(elements@.last() == quote);
                assert(elements_view(elements@) =~= seq![element_view(quote)]);
            }
            assert(elements_view(elements@) =~= reply_part);
        },
        None => {
            assert(elements_view(elements@) =~= reply_part);
        },
    }
    let ghost before = elements@;
    let mut body = satori_element_from_tg_entities(message.text.as_str(), opt_slice(&message.entities));
    let ghost b = body@;
    elements.append(&mut body);
    proof {
        crate::element::lemma_elements_view_concat(before, b);
    }
    let ghost before2 = elements@;
    match media_element(self_id, &message.media) {
        Some(e) => {
            elements.push(e);
            proof {
                crate::element::lemma_elements_view_concat(before2, seq![e]);
                assert(before2 + seq![e] == elements@);
                assert(seq![e].drop_last() =~= Seq::<Element>::empty());
                assert(elements_view(seq![e]) =~= seq![element_view(e)]);
            }
        },
        None => {
            assert(elements_view(elements@) =~= elements_view(elements@) + Seq::<ElementView>::empty());
        },
    }
    elements
}

/// The Satori message for a Telegram message: its id, the markup of its elements, its
/// chat as channel (in the thread of its forum topic) and as guild, its sender (the chat
/// itself where a channel post has none) and its times.
pub fn satori_message_from_tg_message(self_id: i64, message: &MessageInfo) -> (r: Message)
    requires
        message_fits(*message),
    ensures
        r.view() == message_view_of(self_id, *message),
{
    let elements = satori_elements_from_tg_message(self_id, message);
    let content = dump(elements.as_slice());
    let channel = match &message.peer {
        Some(p) => Some(satori_channel_from_tg_peer(p, extract_thread_id(message))),
        None => None,
    };
    let guild = match &message.peer {
        Some(p) => satori_guild_from_tg_peer(self_id, p),
        None => None,
    };
    let user = match &message.sender {
        Some(s) => Some(satori_user_from_tg_peer(self_id, s)),
        None => match &message.peer {
            Some(p) => Some(satori_user_from_tg_peer(self_id, p)),
            None => None,
        },
    };
    Message {
        id: i64_to_string(message.id as i64),
        content,
        channel,
        guild,
        member: None,
        user,
        created_at: Some(message.date),
        updated_at: message.edit_date,
    }
}

fn photo_fits_exec(p: &RawPhoto) -> (r: bool)
    ensures
        r == photo_fits(*p),
{
    if p.file_reference.len() > usize::MAX / 8 {
        return false;
    }
    let mut i: usize = 0;
    while i < p.sizes.len()
        invariant
            i <= p.sizes.len(),
            forall|j: int| 0 <= j < i ==> match #[trigger] p.sizes@[j] {
                PhotoSizeInfo::Size { kind, w, h } => i32::MIN <= w * h <= i32::MAX
                    && vstd::utf8::encode_utf8(kind@).len() <= usize::MAX / 8,
                PhotoSizeInfo::Progressive { kind, w, h } => i32::MIN <= w * h <= i32::MAX
                    && vstd::utf8::encode_utf8(kind@).len() <= usize::MAX / 8,
                PhotoSizeInfo::Other => true,
            },
        decreases p.sizes.len() - i,
    {
        let ok = match &p.sizes[i] {
            PhotoSizeInfo::Size { kind, w, h } | PhotoSizeInfo::Progressive { kind, w, h } => {
                let ww: i64 = *w as i64;
                let hh: i64 = *h as i64;
                assert(-4611686018427387904 <= ww * hh <= 4611686018427387904) by (nonlinear_arith)
                    requires
                        -2147483648 <= ww <= 2147483647,
                        -2147483648 <= hh <= 2147483647,
                ;
                let a: i64 = ww * hh;
                -2147483648i64 <= a && a <= 2147483647i64 && kind.as_str().as_bytes().len() <= usize::MAX / 8
            },
            PhotoSizeInfo::Other => true,
        };
        if !ok {
            return false;
        }
        i = i + 1;
    }
    true
}

/// Whether `satori_elements_from_tg_message` and `satori_message_from_tg_message` can
/// convert this message.
pub fn message_convertible(message: &MessageInfo) -> (r: bool)
    ensures
        r == message_fits(*message),
{
    if entities_would_fail(message.text.as_str(), opt_slice(&message.entities)) {
        return false;
    }
    match extract_reply_info(message) {
        Some(info) => match info.quote {
            Some((t, es)) => {
                if entities_would_fail(t, es) {
                    return false;
                }
            },
            None => {},
        },
        None => {},
    }
    match &message.media {
        Some(MediaInfo::Photo { photo: Some(p) }) => photo_fits_exec(p),
        Some(MediaInfo::Sticker { document: Some(d), .. }) => d.file_reference.len() <= usize::MAX / 4,
        Some(MediaInfo::Document { info: Some(d), .. }) => d.raw.file_reference.len() <= usize::MAX / 4,
        _ => true,
    }
}

} // verus!
