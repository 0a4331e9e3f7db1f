use vstd::prelude::*;

use grammers_session::types::{PeerId, PeerKind};

use crate::element::{elements_view, AttrView, Element, ElementView};
use crate::error::{WebError, BAD_REQUEST};
use crate::text::{chars_of, int_decimal, parse_i32, parse_i64, spec_parse_i32, spec_parse_i64, str_eq};

verus! {

/// What a markup names that must be looked up before it is encoded: custom emoji ids,
/// usernames, and the dialog ids of mentions that carry no name.
pub struct InfoSets {
    pub emojis: Set<i64>,
    pub usernames: Set<Seq<char>>,
    pub user_ids: Set<i64>,
}

pub open spec fn no_infos() -> InfoSets {
    InfoSets { emojis: Set::empty(), usernames: Set::empty(), user_ids: Set::empty() }
}

pub open spec fn join_infos(a: InfoSets, b: InfoSets) -> InfoSets {
    InfoSets {
        emojis: a.emojis + b.emojis,
        usernames: a.usernames + b.usernames,
        user_ids: a.user_ids + b.user_ids,
    }
}

/// What an element names: an `emoji` its id where it reads as a number; an `at` its id,
/// as a dialog id where it reads as a number and the mention has no `name`, else as a
/// username; any other element what its children name.
pub open spec fn element_infos(e: ElementView) -> InfoSets
    decreases e,
{
    if e.tag == "emoji"@ {
        match e.attr_str("id"@) {
            Some(id) => match spec_parse_i64(id) {
                Some(n) => InfoSets { emojis: set![n], usernames: Set::empty(), user_ids: Set::empty() },
                None => no_infos(),
            },
            None => no_infos(),
        }
    } else if e.tag == "at"@ {
        match e.attr_str("id"@) {
            Some(id) => match spec_parse_i64(id) {
                Some(n) => if e.attr_str("name"@) is None {
                    InfoSets { emojis: Set::empty(), usernames: Set::empty(), user_ids: set![n] }
                } else {
                    no_infos()
                },
                None => InfoSets { emojis: Set::empty(), usernames: set![id], user_ids: Set::empty() },
            },
            None => no_infos(),
        }
    } else {
        elements_infos(e.children)
    }
}

/// What a sequence of elements names.
pub open spec fn elements_infos(es: Seq<ElementView>) -> InfoSets
    decreases es,
{
    if es.len() == 0 {
        no_infos()
    } else {
        join_infos(elements_infos(es.drop_last()), element_infos(es.last()))
    }
}

/// What elements one after the other name is what each names, together; an `emoji` with
/// a numeric id names that custom emoji, an `at` with a numeric id and no name names that
/// peer, an `at` with any other id names that username, and any other element names what
/// its children name.
pub proof fn lemma_infos_compose(a: Seq<ElementView>, b: Seq<ElementView>, n: i64, u: Seq<char>, e: ElementView)
    ensures
        elements_infos(a + b) == join_infos(elements_infos(a), elements_infos(b)),
        element_infos(
            ElementView { tag: "emoji"@, attrs: seq![("id"@, AttrView::Str(int_decimal(n as int)))], children: Seq::empty() },
        ).emojis == set![n],
        element_infos(
            ElementView { tag: "at"@, attrs: seq![("id"@, AttrView::Str(int_decimal(n as int)))], children: Seq::empty() },
        ).user_ids == set![n],
        spec_parse_i64(u) is None ==> element_infos(
            ElementView { tag: "at"@, attrs: seq![("id"@, AttrView::Str(u))], children: Seq::empty() },
        ).usernames == set![u],
        e.tag != "emoji"@ && e.tag != "at"@ ==> element_infos(e) == elements_infos(e.children),
    decreases b.len(),
{
    crate::text::lemma_parse_i64_decimal(n);
    reveal_strlit("id");
    reveal_strlit("name");
    assert("id"@ != "name"@) by {
        assert("id"@.len() != "name"@.len());
    }
    reveal_strlit("at");
    reveal_strlit("emoji");
    assert("at"@ != "emoji"@) by {
        assert("at"@.len() != "emoji"@.len());
    }
    let one = seq![("id"@, AttrView::Str(int_decimal(n as int)))];
    assert(one.drop_first() =~= Seq::<(Seq<char>, AttrView)>::empty());
    assert(one[0].0 == "id"@);
    assert(crate::element::attrs_lookup(Seq::<(Seq<char>, AttrView)>::empty(), "name"@) is None);
    assert(crate::element::attrs_lookup(one, "name"@) == crate::element::attrs_lookup(one.drop_first(), "name"@));
    assert(crate::element::attrs_lookup(one, "name"@) is None);
    let two = seq![("id"@, AttrView::Str(u))];
    assert(two.drop_first() =~= Seq::<(Seq<char>, AttrView)>::empty());
    assert(crate::element::attrs_lookup(two, "id"@) == Some(AttrView::Str(u)));
    if b.len() == 0 {
        assert(a + b =~= a);
        let x = elements_infos(a);
        let j = join_infos(x, no_infos());
        assert(j.emojis =~= x.emojis);
        assert(j.usernames =~= x.usernames);
        assert(j.user_ids =~= x.user_ids);
        assert(j == x);
    } else {
        lemma_infos_compose(a, b.drop_last(), n, u, e);
        assert((a + b).drop_last() =~= a + b.drop_last());
        assert((a + b).last() == b.last());
        let x = elements_infos(a);
        let y = elements_infos(b.drop_last());
        let z = element_infos(b.last());
        let l = join_infos(join_infos(x, y), z);
        let r = join_infos(x, join_infos(y, z));
        assert(l.emojis =~= r.emojis);
        assert(l.usernames =~= r.usernames);
        assert(l.user_ids =~= r.user_ids);
        assert(l == r);
    }
}

/// The numbers in a sequence, as a set.
pub open spec fn id_set(s: Seq<i64>) -> Set<i64> {
    Set::new(|x: i64| s.contains(x))
}

/// The texts in a sequence of strings, as a set.
pub open spec fn text_set(s: Seq<String>) -> Set<Seq<char>> {
    Set::new(|x: Seq<char>| exists|i: int| 0 <= i < s.len() && #[trigger] s[i]@ == x)
}

/// No two strings of the sequence hold the same text.
pub open spec fn texts_distinct(s: Seq<String>) -> bool {
    forall|i: int, j: int| 0 <= i < s.len() && 0 <= j < s.len() && i != j ==> #[trigger] s[i]@ != #[trigger] s[j]@
}

fn insert_id(v: &mut Vec<i64>, x: i64)
    requires
        old(v)@.no_duplicates(),
    ensures
        final(v)@.no_duplicates(),
        id_set(final(v)@) == id_set(old(v)@).insert(x),
{
    let mut i: usize = 0;
    while i < v.len()
        invariant
            i <= v@.len(),
            v@.no_duplicates(),
            forall|j: int| 0 <= j < i ==> v@[j] != x,
        decreases v@.len() - i,
    {
        if v[i] == x {
            assert(v@.contains(x));
            assert(id_set(v@) =~= id_set(v@).insert(x));
            return;
        }
        i = i + 1;
    }
    let ghost before = v@;
    v.push(x);
    assert forall|y: i64| v@.contains(y) <==> before.contains(y) || y == x by {
        if v@.contains(y) {
            let k = choose|k: int| 0 <= k < v@.len() && v@[k] == y;
            if k < before.len() {
                assert(before[k] == y);
            }
        }
        if before.contains(y) {
            let k = choose|k: int| 0 <= k < before.len() && before[k] == y;
            assert(v@[k] == y);
        }
        if y == x {
            assert(v@[before.len() as int] == x);
        }
    }
    assert(id_set(v@) =~= id_set(before).insert(x));
}

fn insert_text(v: &mut Vec<String>, x: &str)
    requires
        texts_distinct(old(v)@),
    ensures
        texts_distinct(final(v)@),
        text_set(final(v)@) == text_set(old(v)@).insert(x@),
{
    let mut i: usize = 0;
    while i < v.len()
        invariant
            i <= v@.len(),
            texts_distinct(v@),
            forall|j: int| 0 <= j < i ==> v@[j]@ != x@,
        decreases v@.len() - i,
    {
        if str_eq(v[i].as_str(), x) {
            assert(text_set(v@).contains(x@));
            assert(text_set(v@) =~= text_set(v@).insert(x@));
            return;
        }
        i = i + 1;
    }
    let ghost before = v@;
    v.push(x.to_owned());
    assert(v@[before.len() as int]@ == x@);
    assert forall|y: Seq<char>| #[trigger] text_set(v@).contains(y) <==> text_set(before).contains(y) || y == x@ by {
        if text_set(v@).contains(y) {
            let k = choose|k: int| 0 <= k < v@.len() && #[trigger] v@[k]@ == y;
            if k < before.len() {
                assert(before[k]@ == y);
            }
        }
        if text_set(before).contains(y) {
            let k = choose|k: int| 0 <= k < before.len() && #[trigger] before[k]@ == y;
            assert(v@[k]@ == y);
        }
    }
    assert(text_set(v@) =~= text_set(before).insert(x@));
}

/// Adds what an element names to the three collections.
fn extract_element_infos(e: &Element, emojis: &mut Vec<i64>, usernames: &mut Vec<String>, user_ids: &mut Vec<i64>)
    requires
        old(emojis)@.no_duplicates(),
        texts_distinct(old(usernames)@),
        old(user_ids)@.no_duplicates(),
    ensures
        final(emojis)@.no_duplicates(),
        texts_distinct(final(usernames)@),
        final(user_ids)@.no_duplicates(),
        id_set(final(emojis)@) == id_set(old(emojis)@) + element_infos(e.view()).emojis,
        text_set(final(usernames)@) == text_set(old(usernames)@) + element_infos(e.view()).usernames,
        id_set(final(user_ids)@) == id_set(old(user_ids)@) + element_infos(e.view()).user_ids,
    decreases e,
{
    let ghost ev = e.view();
    if str_eq(e.tag.as_str(), "emoji") {
        match e.get_attr_str("id") {
            Some(id) => {
                let cs = chars_of(id);
                match parse_i64(cs.as_slice()) {
                    Some(n) => {
                        insert_id(emojis, n);
                        assert(id_set(emojis@) =~= id_set(old(emojis)@) + set![n]);
                    },
                    None => {},
                }
            },
            None => {},
        }
        assert(text_set(usernames@) =~= text_set(usernames@) + Set::<Seq<char>>::empty());
        assert(id_set(user_ids@) =~= id_set(user_ids@) + Set::<i64>::empty());
        assert(id_set(emojis@) =~= id_set(old(emojis)@) + element_infos(ev).emojis);
    } else if str_eq(e.tag.as_str(), "at") {
        match e.get_attr_str("id") {
            Some(id) => {
                let cs = chars_of(id);
                match parse_i64(cs.as_slice()) {
                    Some(n) => {
                        if e.get_attr_str("name").is_none() {
                            insert_id(user_ids, n);
                            assert(id_set(user_ids@) =~= id_set(old(user_ids)@) + set![n]);
                        }
                    },
                    None => {
                        insert_text(usernames, id);
                        assert(text_set(usernames@) =~= text_set(old(usernames)@) + set![id@]);
                    },
                }
            },
            None => {},
        }
        assert(id_set(emojis@) =~= id_set(emojis@) + Set::<i64>::empty());
        assert(text_set(usernames@) =~= text_set(old(usernames)@) + element_infos(ev).usernames);
        assert(id_set(user_ids@) =~= id_set(old(user_ids)@) + element_infos(ev).user_ids);
    } else {
        let ghost es = e.children@;
        assert(ev.children == elements_view(es));
        assert(es.take(0) =~= Seq::<Element>::empty());
        assert(id_set(emojis@) =~= id_set(emojis@) + Set::<i64>::empty());
        assert(text_set(usernames@) =~= text_set(usernames@) + Set::<Seq<char>>::empty());
        assert(id_set(user_ids@) =~= id_set(user_ids@) + Set::<i64>::empty());
        let mut i: usize = 0;
        while i < e.children.len()
            invariant
                i <= e.children@.len(),
                es == e.children@,
                emojis@.no_duplicates(),
                texts_distinct(usernames@),
                user_ids@.no_duplicates(),
                id_set(emojis@) == id_set(old(emojis)@) + elements_infos(elements_view(es.take(i as int))).emojis,
                text_set(usernames@) == text_set(old(usernames)@) + elements_infos(
                    elements_view(es.take(i as int)),
                ).usernames,
                id_set(user_ids@) == id_set(old(user_ids)@) + elements_infos(
                    elements_view(es.take(i as int)),
                ).user_ids,
            decreases e.children@.len() - i,
        {
            extract_element_infos(&e.children[i], emojis, usernames, user_ids);
            proof {
                crate::element::lemma_elements_view_take(es, i as int);
                let t = elements_view(es.take(i + 1));
                assert(t.drop_last() == elements_view(es.take(i as int)));
                assert(t.last() == e.children@[i as int].view());
                assert(id_set(emojis@) =~= id_set(old(emojis)@) + elements_infos(t).emojis);
                assert(text_set(usernames@) =~= text_set(old(usernames)@) + elements_infos(t).usernames);
                assert(id_set(user_ids@) =~= id_set(old(user_ids)@) + elements_infos(t).user_ids);
            }
            i = i + 1;
        }
        assert(es.take(es.len() as int) =~= es);
    }
}

/// Adds what the elements name to the three collections, each kept free of repeats.
fn extract_infos(elements: &[Element], emojis: &mut Vec<i64>, usernames: &mut Vec<String>, user_ids: &mut Vec<i64>)
    requires
        old(emojis)@.no_duplicates(),
        texts_distinct(old(usernames)@),
        old(user_ids)@.no_duplicates(),
    ensures
        final(emojis)@.no_duplicates(),
        texts_distinct(final(usernames)@),
        final(user_ids)@.no_duplicates(),
        id_set(final(emojis)@) == id_set(old(emojis)@) + elements_infos(elements_view(elements@)).emojis,
        text_set(final(usernames)@) == text_set(old(usernames)@) + elements_infos(
            elements_view(elements@),
        ).usernames,
        id_set(final(user_ids)@) == id_set(old(user_ids)@) + elements_infos(elements_view(elements@)).user_ids,
{
    let ghost es = elements@;
    assert(es.take(0) =~= Seq::<Element>::empty());
    assert(id_set(emojis@) =~= id_set(emojis@) + Set::<i64>::empty());
    assert(text_set(usernames@) =~= text_set(usernames@) + Set::<Seq<char>>::empty());
    assert(id_set(user_ids@) =~= id_set(user_ids@) + Set::<i64>::empty());
    let mut i: usize = 0;
    while i < elements.len()
        invariant
            i <= elements@.len(),
            es == elements@,
            emojis@.no_duplicates(),
            texts_distinct(usernames@),
            user_ids@.no_duplicates(),
            id_set(emojis@) == id_set(old(emojis)@) + elements_infos(elements_view(es.take(i as int))).emojis,
            text_set(usernames@) == text_set(old(usernames)@) + elements_infos(
                elements_view(es.take(i as int)),
            ).usernames,
            id_set(user_ids@) == id_set(old(user_ids)@) + elements_infos(elements_view(es.take(i as int))).user_ids,
        decreases elements@.len() - i,
    {
        extract_element_infos(&elements[i], emojis, usernames, user_ids);
        proof {
            crate::element::lemma_elements_view_take(es, i as int);
            let t = elements_view(es.take(i + 1));
            assert(t.drop_last() == elements_view(es.take(i as int)));
            assert(t.last() == elements@[i as int].view());
            assert(id_set(emojis@) =~= id_set(old(emojis)@) + elements_infos(t).emojis);
            assert(text_set(usernames@) =~= text_set(old(usernames)@) + elements_infos(t).usernames);
            assert(id_set(user_ids@) =~= id_set(old(user_ids)@) + elements_infos(t).user_ids);
        }
        i = i + 1;
    }
    assert(es.take(es.len() as int) =~= es);
}

/// The kind of peer a Bot API dialog id names.
#[derive(Clone, Copy, PartialEq, Eq, Structural)]
pub enum DialogKind {
    User,
    Chat,
    Channel,
}

/// The kind and the bare id of the peer a Bot API dialog id names: users have positive
/// ids up to 0xffffffffff; small groups negative ids down to -999999999999 (bare id
/// negated); channels ids below -1000000000000 in two ranges (bare id negated, less
/// 1000000000000); any other id names no peer.
pub open spec fn dialog_peer(id: i64) -> Option<(DialogKind, i64)> {
    if 1 <= id <= 0xffffffffff {
        Some((DialogKind::User, id))
    } else if -999999999999 <= id <= -1 {
        Some((DialogKind::Chat, (-id) as i64))
    } else if (-1997852516352 <= id <= -1000000000001) || (-4000000000000 <= id <= -2002147483649) {
        Some((DialogKind::Channel, (-id - 1000000000000) as i64))
    } else {
        None
    }
}

/// `PeerId::from_bot_api_dialog_id` of `grammers-session`, with the `kind` and the
/// `bare_id` of the peer id it gives.  The contract states what the source of these three
/// methods does (range checks and the arithmetic of `bare_id`); a peer id made from a
/// dialog id is never the self-user, so `bare_id` gives a value.
#[verifier::external_body]
pub(crate) fn peer_of_dialog_id(id: i64) -> (r: Option<(DialogKind, i64)>)
    ensures
        r == dialog_peer(id),
{
    let peer = PeerId::from_bot_api_dialog_id(id)?;
    let kind = match peer.kind() {
        PeerKind::User => DialogKind::User,
        PeerKind::Chat => DialogKind::Chat,
        PeerKind::Channel => DialogKind::Channel,
    };
    Some((kind, peer.bare_id()?))
}

/// The bare ids of the given kind among the peers that the ids name, in order.
pub open spec fn bare_ids_of(ids: Seq<i64>, kind: DialogKind) -> Seq<i64>
    decreases ids.len(),
{
    if ids.len() == 0 {
        Seq::empty()
    } else {
        let prev = bare_ids_of(ids.drop_last(), kind);
        match dialog_peer(ids.last()) {
            Some((k, b)) => if k == kind {
                prev.push(b)
            } else {
                prev
            },
            None => prev,
        }
    }
}

/// What must be looked up before a markup is encoded: the custom emoji documents, the
/// usernames, and the peers that mentions name by dialog id, sorted into users, small
/// groups and channels by their bare ids.
pub struct InfoRequest {
    pub emoji_ids: Vec<i64>,
    pub usernames: Vec<String>,
    pub user_ids: Vec<i64>,
    pub users: Vec<i64>,
    pub chats: Vec<i64>,
    pub channels: Vec<i64>,
}

/// What must be looked up to encode the elements: every emoji id, username and unnamed
/// mention's dialog id that they name, each once, and the peers of those dialog ids by
/// kind (ids that name no peer are left out).
pub fn info_request(elements: &[Element]) -> (r: InfoRequest)
    ensures
        r.emoji_ids@.no_duplicates(),
        texts_distinct(r.usernames@),
        r.user_ids@.no_duplicates(),
        id_set(r.emoji_ids@) == elements_infos(elements_view(elements@)).emojis,
        text_set(r.usernames@) == elements_infos(elements_view(elements@)).usernames,
        id_set(r.user_ids@) == elements_infos(elements_view(elements@)).user_ids,
        r.users@ == bare_ids_of(r.user_ids@, DialogKind::User),
        r.chats@ == bare_ids_of(r.user_ids@, DialogKind::Chat),
        r.channels@ == bare_ids_of(r.user_ids@, DialogKind::Channel),
{
    let mut emoji_ids: Vec<i64> = Vec::new();
    let mut usernames: Vec<String> = Vec::new();
    let mut user_ids: Vec<i64> = Vec::new();
    assert(id_set(emoji_ids@) =~= Set::<i64>::empty());
    assert(text_set(usernames@) =~= Set::<Seq<char>>::empty());
    assert(id_set(user_ids@) =~= Set::<i64>::empty());
    extract_infos(elements, &mut emoji_ids, &mut usernames, &mut user_ids);
    assert(id_set(emoji_ids@) =~= elements_infos(elements_view(elements@)).emojis);
    assert(text_set(usernames@) =~= elements_infos(elements_view(elements@)).usernames);
    assert(id_set(user_ids@) =~= elements_infos(elements_view(elements@)).user_ids);
    let mut users: Vec<i64> = Vec::new();
    let mut chats: Vec<i64> = Vec::new();
    let mut channels: Vec<i64> = Vec::new();
    let ghost ids = user_ids@;
    let mut i: usize = 0;
    assert(ids.take(0) =~= Seq::<i64>::empty());
    while i < user_ids.len()
        invariant
            i <= ids.len(),
            ids == user_ids@,
            users@ == bare_ids_of(ids.take(i as int), DialogKind::User),
            chats@ == bare_ids_of(ids.take(i as int), DialogKind::Chat),
            channels@ == bare_ids_of(ids.take(i as int), DialogKind::Channel),
        decreases ids.len() - i,
    {
        assert(ids.take(i + 1).drop_last() =~= ids.take(i as int));
        assert(ids.take(i + 1).last() == ids[i as int]);
        match peer_of_dialog_id(user_ids[i]) {
            Some((DialogKind::User, b)) => users.push(b),
            Some((DialogKind::Chat, b)) => chats.push(b),
            Some((DialogKind::Channel, b)) => channels.push(b),
            None => {},
        }
        i = i + 1;
    }
    assert(ids.take(ids.len() as int) =~= ids);
    InfoRequest { emoji_ids, usernames, user_ids, users, chats, channels }
}

/// The message to reply to: none where no id is given; an error (400, `Bad reply id`)
/// where the id does not read as an `i32`.
pub fn parse_reply(reply: Option<&str>) -> (r: Result<Option<i32>, WebError>)
    ensures
        match reply {
            None => r == Ok::<Option<i32>, WebError>(None),
            Some(s) => match spec_parse_i32(s@) {
                Some(n) => r == Ok::<Option<i32>, WebError>(Some(n)),
                None => r matches Err(e) && e.code == BAD_REQUEST && e.reason@ == "Bad reply id"@,
            },
        },
{
    match reply {
        Some(id) => {
            let cs = chars_of(id);
            match parse_i32(cs.as_slice()) {
                Some(n) => Ok(Some(n)),
                None => Err(WebError::new(BAD_REQUEST, "Bad reply id".to_owned())),
            }
        },
        None => Ok(None),
    }
}

} // verus!
