use vstd::prelude::*;

use crate::element::{
    attrs_unique, elem_keys_unique, elems_keys_unique, attr_view, attrs_view, content_key, element_view, elements_view, text_tag, AttrValue, AttrView,
    Element, ElementView,
};
use crate::entities::{run_len, unescape_spec, unescape};
use crate::text::{append_chars, chars_of, chars_occur_at, is_space, occurs_at, space, str_eq, string_of};

verus! {

/// Where a tag stands: an opening tag, a closing tag, or a tag without content.
#[derive(Clone, Copy, PartialEq, Eq, Structural)]
pub enum TokenPosition {
    Open,
    Close,
    Empty,
}

/// A tag as the lexer reads it: its name, where it stands, and the text between
/// the name and the closing `>` that holds the attributes.
pub struct Token {
    pub name: Vec<char>,
    pub position: TokenPosition,
    pub extra: Vec<char>,
}

/// A piece of the lexed markup: text or a tag.
pub enum TokenLike {
    Str(Vec<char>),
    Token(Token),
}

/// The value of a tag.
pub struct TokenView {
    pub name: Seq<char>,
    pub position: TokenPosition,
    pub extra: Seq<char>,
}

/// The value of a piece of lexed markup.
pub enum TokenLikeView {
    Str(Seq<char>),
    Token(TokenView),
}

impl Token {
    pub open spec fn view(&self) -> TokenView {
        TokenView { name: self.name@, position: self.position, extra: self.extra@ }
    }
}

impl TokenLike {
    pub open spec fn view(&self) -> TokenLikeView {
        match self {
            TokenLike::Str(s) => TokenLikeView::Str(s@),
            TokenLike::Token(t) => TokenLikeView::Token(t.view()),
        }
    }
}

pub open spec fn tokens_view(ts: Seq<TokenLike>) -> Seq<TokenLikeView> {
    ts.map_values(|t: TokenLike| t.view())
}

/// The first position from `from` on that holds `c`.
pub open spec fn find_char(s: Seq<char>, from: int, c: char) -> Option<int>
    decreases s.len() - from,
{
    if from < 0 || from >= s.len() {
        None
    } else if s[from] == c {
        Some(from)
    } else {
        find_char(s, from + 1, c)
    }
}

/// The first position from `from` on at which `p` occurs.
pub open spec fn find_seq(s: Seq<char>, from: int, p: Seq<char>) -> Option<int>
    decreases s.len() - from,
{
    if from < 0 || from >= s.len() {
        None
    } else if occurs_at(s, from, p) {
        Some(from)
    } else {
        find_seq(s, from + 1, p)
    }
}

/// A character that may stand in the name of a tag.
pub open spec fn is_name_char(c: char) -> bool {
    !(c == '!' || is_space(c) || c == '>' || c == '/')
}

pub open spec fn name_pred() -> spec_fn(char) -> bool {
    |c: char| is_name_char(c)
}

pub open spec fn space_pred() -> spec_fn(char) -> bool {
    |c: char| is_space(c)
}

/// The length of the run of whitespace at the end of `s`.
pub open spec fn trailing_space_len(s: Seq<char>) -> nat
    decreases s.len(),
{
    if s.len() > 0 && is_space(s.last()) {
        1 + trailing_space_len(s.drop_last())
    } else {
        0
    }
}

/// The tag written by the characters between `<` and `>`: a `/` first makes a
/// closing tag; the name is the longest run of characters other than `!`, `/`, `>`
/// and whitespace; a `/` last makes a tag without content; the attributes are what
/// lies between, without the whitespace before the end.
pub open spec fn tag_token(inner: Seq<char>) -> TokenView {
    let close = inner.len() > 0 && inner[0] == '/';
    let ns: int = if close { 1 } else { 0 };
    let nl = run_len(inner, ns, name_pred()) as int;
    let r = inner.subrange(ns + nl, inner.len() as int);
    let empty = r.len() > 0 && r.last() == '/';
    let r2 = if empty { r.drop_last() } else { r };
    TokenView {
        name: inner.subrange(ns, ns + nl),
        position: if close {
            TokenPosition::Close
        } else if empty {
            TokenPosition::Empty
        } else {
            TokenPosition::Open
        },
        extra: r2.take(r2.len() - trailing_space_len(r2)),
    }
}

/// A comment or a tag found in the markup: where it starts and ends, and the tag
/// (`None` for a comment).
pub struct TagMatch {
    pub start: int,
    pub end: int,
    pub token: Option<TokenView>,
}

pub open spec fn comment_open() -> Seq<char> {
    seq!['<', '!', '-', '-']
}

pub open spec fn comment_close() -> Seq<char> {
    seq!['-', '-', '>']
}

/// The first comment or tag of `s`: it starts at the first `<` that a `>` follows;
/// it is a comment `<!-- ... -->` that ends at the first `-->` after `<!--` where
/// there is one, else a tag that ends at the first `>`.
pub open spec fn find_tag(s: Seq<char>) -> Option<TagMatch> {
    match find_char(s, 0, '<') {
        None => None,
        Some(a) => match find_char(s, a + 1, '>') {
            None => None,
            Some(k) => if occurs_at(s, a, comment_open()) && find_seq(s, a + 4, comment_close()) is Some {
                Some(TagMatch { start: a, end: find_seq(s, a + 4, comment_close()).unwrap() + 3, token: None })
            } else {
                Some(TagMatch { start: a, end: k + 1, token: Some(tag_token(s.subrange(a + 1, k))) })
            },
        },
    }
}

/// Text with the whitespace at its start removed when a line break is among it,
/// then the same at its end.
pub open spec fn trim_content(s: Seq<char>) -> Seq<char> {
    let lead = run_len(s, 0, space_pred()) as int;
    let a = if s.take(lead).contains('\n') { s.skip(lead) } else { s };
    let trail = trailing_space_len(a) as int;
    if a.skip(a.len() - trail).contains('\n') { a.take(a.len() - trail) } else { a }
}

/// The text token for markup text between tags: unescaped and trimmed, none when empty.
pub open spec fn content_tokens(raw: Seq<char>) -> Seq<TokenLikeView> {
    let c = trim_content(unescape_spec(raw));
    if c.len() > 0 {
        seq![TokenLikeView::Str(c)]
    } else {
        Seq::empty()
    }
}

/// The pieces of the markup `s`, from left to right.
pub open spec fn lex_spec(s: Seq<char>) -> Seq<TokenLikeView>
    decreases s.len(),
{
    match find_tag(s) {
        Some(m) => if 0 <= m.start < m.end <= s.len() {
            content_tokens(s.take(m.start)) + match m.token {
                Some(t) => seq![TokenLikeView::Token(t)],
                None => Seq::empty(),
            } + lex_spec(s.skip(m.end))
        } else {
            Seq::empty()
        },
        None => content_tokens(s),
    }
}

fn find_char_exec(s: &[char], from: usize, c: char) -> (r: Option<usize>)
    ensures
        match r {
            Some(i) => find_char(s@, from as int, c) == Some(i as int),
            None => find_char(s@, from as int, c) is None,
        },
        r matches Some(i) ==> from <= i < s.len() && s@[i as int] == c,
{
    let mut i = from;
    while i < s.len()
        invariant
            from <= i,
            find_char(s@, from as int, c) == find_char(s@, i as int, c),
        decreases s.len() - i,
    {
        if s[i] == c {
            return Some(i);
        }
        i = i + 1;
    }
    None
}

fn find_seq_exec(s: &[char], from: usize, p: &[char]) -> (r: Option<usize>)
    ensures
        match r {
            Some(i) => find_seq(s@, from as int, p@) == Some(i as int),
            None => find_seq(s@, from as int, p@) is None,
        },
        r matches Some(i) ==> from <= i < s.len() && occurs_at(s@, i as int, p@),
{
    let mut i = from;
    while i < s.len()
        invariant
            from <= i,
            find_seq(s@, from as int, p@) == find_seq(s@, i as int, p@),
        decreases s.len() - i,
    {
        if chars_occur_at(s, i, p) {
            return Some(i);
        }
        i = i + 1;
    }
    None
}

fn is_name_char_exec(c: char) -> (r: bool)
    ensures
        r == is_name_char(c),
{
    !(c == '!' || space(c) || c == '>' || c == '/')
}

fn trailing_space_exec(s: &[char]) -> (n: usize)
    ensures
        n == trailing_space_len(s@),
        n <= s.len(),
{
    let mut n: usize = 0;
    assert(s@.take(s.len() as int) == s@);
    while n < s.len() && space(s[s.len() - 1 - n])
        invariant
            n <= s.len(),
            trailing_space_len(s@) == n + trailing_space_len(s@.take(s.len() - n)),
        decreases s.len() - n,
    {
        assert(s@.take(s.len() - n).drop_last() == s@.take(s.len() - n - 1));
        n = n + 1;
    }
    n
}

fn leading_space_exec(s: &[char]) -> (n: usize)
    ensures
        n == run_len(s@, 0, space_pred()),
        n <= s.len(),
{
    let mut n: usize = 0;
    while n < s.len() && space(s[n])
        invariant
            n <= s.len(),
            run_len(s@, 0, space_pred()) == n + run_len(s@, n as int, space_pred()),
        decreases s.len() - n,
    {
        n = n + 1;
    }
    n
}

proof fn lemma_trailing_le(s: Seq<char>)
    ensures
        trailing_space_len(s) <= s.len(),
    decreases s.len(),
{
    if s.len() > 0 && is_space(s.last()) {
        lemma_trailing_le(s.drop_last());
    }
}

proof fn lemma_run_len_le(s: Seq<char>, k: int, p: spec_fn(char) -> bool)
    requires
        0 <= k <= s.len(),
    ensures
        k + run_len(s, k, p) <= s.len(),
    decreases s.len() - k,
{
    if k < s.len() && p(s[k]) {
        lemma_run_len_le(s, k + 1, p);
    }
}

fn contains_newline(s: &[char]) -> (r: bool)
    ensures
        r == s@.contains('\n'),
{
    let mut i: usize = 0;
    while i < s.len()
        invariant
            i <= s.len(),
            forall|j: int| 0 <= j < i ==> s@[j] != '\n',
        decreases s.len() - i,
    {
        if s[i] == '\n' {
            assert(s@[i as int] == '\n');
            return true;
        }
        i = i + 1;
    }
    false
}

/// `trim_content` of `s`.
fn trim_content_exec(s: &[char]) -> (r: Vec<char>)
    ensures
        r@ == trim_content(s@),
{
    let lead = leading_space_exec(s);
    let a: &[char] = if contains_newline(&s[0..lead]) {
        &s[lead..s.len()]
    } else {
        s
    };
    assert(s@.subrange(0, lead as int) == s@.take(lead as int));
    assert(s@.subrange(lead as int, s.len() as int) == s@.skip(lead as int));
    let trail = trailing_space_exec(a);
    let mut out: Vec<char> = Vec::new();
    assert(a@.subrange(a.len() - trail, a.len() as int) == a@.skip(a.len() - trail));
    assert(a@.subrange(0, a.len() - trail) == a@.take(a.len() - trail));
    if contains_newline(&a[a.len() - trail..a.len()]) {
        append_chars(&mut out, &a[0..a.len() - trail]);
    } else {
        append_chars(&mut out, a);
    }
    out
}

/// `tag_token` of `inner`.
fn tag_token_exec(inner: &[char]) -> (t: Token)
    ensures
        t.view() == tag_token(inner@),
{
    let close = inner.len() > 0 && inner[0] == '/';
    let ns: usize = if close { 1 } else { 0 };
    let mut e = ns;
    while e < inner.len() && is_name_char_exec(inner[e])
        invariant
            ns <= e <= inner.len(),
            run_len(inner@, ns as int, name_pred()) == (e - ns) + run_len(inner@, e as int, name_pred()),
        decreases inner.len() - e,
    {
        e = e + 1;
    }
    let mut name: Vec<char> = Vec::new();
    append_chars(&mut name, &inner[ns..e]);
    let r = &inner[e..inner.len()];
    let empty = r.len() > 0 && r[r.len() - 1] == '/';
    let r2: &[char] = if empty { &r[0..r.len() - 1] } else { r };
    proof {
        if empty {
            assert(r2@ == r@.drop_last());
        }
    }
    let trail = trailing_space_exec(r2);
    let mut extra: Vec<char> = Vec::new();
    append_chars(&mut extra, &r2[0..r2.len() - trail]);
    assert(r2@.subrange(0, r2.len() - trail) == r2@.take(r2.len() - trail));
    Token {
        name,
        position: if close {
            TokenPosition::Close
        } else if empty {
            TokenPosition::Empty
        } else {
            TokenPosition::Open
        },
        extra,
    }
}

/// Appends `content_tokens(raw)`.
fn push_content(tokens: &mut Vec<TokenLike>, raw: &[char])
    ensures
        tokens_view(final(tokens)@) == tokens_view(old(tokens)@) + content_tokens(raw@),
{
    let text = string_of(raw);
    let un = unescape(text.as_str());
    let uc = chars_of(un.as_str());
    let c = trim_content_exec(uc.as_slice());
    let ghost before = tokens@;
    if c.len() > 0 {
        tokens.push(TokenLike::Str(c));
        assert(tokens_view(tokens@) == tokens_view(before).push(TokenLikeView::Str(c@)));
        assert(tokens_view(before).push(TokenLikeView::Str(c@)) == tokens_view(before) + seq![TokenLikeView::Str(c@)]);
    } else {
        assert(tokens_view(before) + Seq::<TokenLikeView>::empty() == tokens_view(before));
    }
}

struct FoundTag {
    start: usize,
    end: usize,
    token: Option<Token>,
}

/// `find_tag(s)`.
fn find_tag_exec(s: &[char]) -> (r: Option<FoundTag>)
    ensures
        match (r, find_tag(s@)) {
            (None, None) => true,
            (Some(f), Some(m)) => f.start == m.start && f.end == m.end && 0 <= f.start < f.end <= s.len()
                && match (f.token, m.token) {
                (None, None) => true,
                (Some(t), Some(tv)) => t.view() == tv,
                _ => false,
            },
            _ => false,
        },
{
    let a = match find_char_exec(s, 0, '<') {
        None => return None,
        Some(a) => a,
    };
    let k = match find_char_exec(s, a + 1, '>') {
        None => return None,
        Some(k) => k,
    };
    let open = ['<', '!', '-', '-'];
    let close = ['-', '-', '>'];
    assert(open@ == comment_open());
    assert(close@ == comment_close());
    if chars_occur_at(s, a, &open) {
        if let Some(c) = find_seq_exec(s, a + 4, &close) {
            assert(c + 3 <= s.len()) by {
                assert(occurs_at(s@, c as int, comment_close()));
            }
            return Some(FoundTag { start: a, end: c + 3, token: None });
        }
    }
    let t = tag_token_exec(&s[a + 1..k]);
    Some(FoundTag { start: a, end: k + 1, token: Some(t) })
}

/// The pieces of the markup `src`, from left to right.
pub fn lex_tokens(src: &[char]) -> (tokens: Vec<TokenLike>)
    ensures
        tokens_view(tokens@) == lex_spec(src@),
{
    let mut tokens: Vec<TokenLike> = Vec::new();
    let mut cur: &[char] = src;
    assert(tokens_view(tokens@) == Seq::<TokenLikeView>::empty());
    loop
        invariant
            tokens_view(tokens@) + lex_spec(cur@) == lex_spec(src@),
        decreases cur.len(),
    {
        match find_tag_exec(cur) {
            Some(found) => {
                let ghost before = tokens_view(tokens@);
                push_content(&mut tokens, &cur[0..found.start]);
                assert(cur@.subrange(0, found.start as int) == cur@.take(found.start as int));
                let ghost mid = tokens_view(tokens@);
                match found.token {
                    Some(t) => {
                        let ghost tv = t.view();
                        tokens.push(TokenLike::Token(t));
                        assert(tokens_view(tokens@) == mid.push(TokenLikeView::Token(tv)));
                        assert(mid.push(TokenLikeView::Token(tv)) == mid + seq![TokenLikeView::Token(tv)]);
                    },
                    None => {
                        assert(mid + Seq::<TokenLikeView>::empty() == mid);
                    },
                }
                let rest = &cur[found.end..cur.len()];
                assert(rest@ == cur@.skip(found.end as int));
                cur = rest;
            },
            None => {
                push_content(&mut tokens, cur);
                return tokens;
            },
        }
    }
}


/// A character that may stand in the key of an attribute.
pub open spec fn key_pred() -> spec_fn(char) -> bool {
    |c: char| !(is_space(c) || c == '=')
}

/// The attribute at position `i` of the attribute text `s` (which starts with a key
/// character): where it ends, its key, and its quoted value where `="..."` or
/// `='...'` follows the key.
pub open spec fn attr_at(s: Seq<char>, i: int) -> (int, Seq<char>, Option<Seq<char>>) {
    let j = i + run_len(s, i, key_pred());
    if occurs_at(s, j, seq!['=', '"']) && find_char(s, j + 2, '"') is Some {
        let q = find_char(s, j + 2, '"').unwrap();
        (q + 1, s.subrange(i, j), Some(s.subrange(j + 2, q)))
    } else if occurs_at(s, j, seq!['=', '\'']) && find_char(s, j + 2, '\'') is Some {
        let q = find_char(s, j + 2, '\'').unwrap();
        (q + 1, s.subrange(i, j), Some(s.subrange(j + 2, q)))
    } else {
        (j, s.subrange(i, j), None)
    }
}

/// The attribute that a key and an optional value make: a value is unescaped; a key
/// alone is a flag, false when it starts with `no-` (which is then dropped).
pub open spec fn attr_entry(key: Seq<char>, value: Option<Seq<char>>) -> (Seq<char>, AttrView) {
    match value {
        Some(v) => (key, AttrView::Str(unescape_spec(v))),
        None => if occurs_at(key, 0, seq!['n', 'o', '-']) {
            (key.skip(3), AttrView::Bool(false))
        } else {
            (key, AttrView::Bool(true))
        },
    }
}

/// The position of the first attribute with the given key.
pub open spec fn attr_index(attrs: Seq<(Seq<char>, AttrView)>, key: Seq<char>) -> Option<int>
    decreases attrs.len(),
{
    if attrs.len() == 0 {
        None
    } else if attrs[0].0 == key {
        Some(0)
    } else {
        match attr_index(attrs.drop_first(), key) {
            Some(i) => Some(i + 1),
            None => None,
        }
    }
}

/// The attributes with `entry` set: it replaces the attribute with its key, or comes last.
pub open spec fn attrs_insert(attrs: Seq<(Seq<char>, AttrView)>, entry: (Seq<char>, AttrView)) -> Seq<
    (Seq<char>, AttrView),
> {
    match attr_index(attrs, entry.0) {
        Some(i) => attrs.update(i, entry),
        None => attrs.push(entry),
    }
}

/// The attributes read from `s[i..]` into `acc`, from left to right.
pub open spec fn attrs_from(s: Seq<char>, i: int, acc: Seq<(Seq<char>, AttrView)>) -> Seq<
    (Seq<char>, AttrView),
>
    decreases s.len() - i,
{
    if i < 0 || i >= s.len() {
        acc
    } else if is_space(s[i]) || s[i] == '=' {
        attrs_from(s, i + 1, acc)
    } else {
        let (e, key, value) = attr_at(s, i);
        if i < e <= s.len() {
            attrs_from(s, e, attrs_insert(acc, attr_entry(key, value)))
        } else {
            acc
        }
    }
}

/// The attributes written in the text of a tag.
pub open spec fn parse_attrs_spec(s: Seq<char>) -> Seq<(Seq<char>, AttrView)> {
    attrs_from(s, 0, Seq::empty())
}

proof fn lemma_attr_index(attrs: Seq<(Seq<char>, AttrView)>, key: Seq<char>, i: int)
    requires
        0 <= i <= attrs.len(),
        forall|j: int| 0 <= j < i ==> attrs[j].0 != key,
    ensures
        attr_index(attrs, key) == match attr_index(attrs.skip(i), key) {
            Some(k) => Some(k + i),
            None => None,
        },
    decreases i,
{
    if i > 0 {
        lemma_attr_index(attrs.drop_first(), key, i - 1);
        assert(attrs.drop_first().skip(i - 1) == attrs.skip(i));
    } else {
        assert(attrs.skip(0) == attrs);
    }
}

/// Sets an attribute as `attrs_insert` does.
fn insert_attr(attrs: &mut Vec<(String, AttrValue)>, key: String, value: AttrValue)
    ensures
        attrs_view(final(attrs)@) == attrs_insert(attrs_view(old(attrs)@), (key@, attr_view(value))),
{
    let ghost av = attrs_view(attrs@);
    let mut i: usize = 0;
    while i < attrs.len()
        invariant
            i <= attrs.len(),
            av == attrs_view(attrs@),
            attrs@ == old(attrs)@,
            forall|j: int| 0 <= j < i ==> av[j].0 != key@,
        decreases attrs.len() - i,
    {
        if str_eq(attrs[i].0.as_str(), key.as_str()) {
            proof {
                lemma_attr_index(av, key@, i as int);
                assert(av.skip(i as int)[0].0 == key@);
            }
            attrs.set(i, (key, value));
            assert(attrs_view(attrs@) =~= av.update(i as int, (key@, attr_view(value))));
            return;
        }
        i = i + 1;
    }
    proof {
        lemma_attr_index(av, key@, i as int);
    }
    attrs.push((key, value));
    assert(attrs_view(attrs@) =~= av.push((key@, attr_view(value))));
}

/// `attr_entry` of a key and an optional value.
fn attr_entry_exec(key: &[char], value: Option<&[char]>) -> (r: (String, AttrValue))
    ensures
        (r.0@, attr_view(r.1)) == attr_entry(key@, match value {
            Some(v) => Some(v@),
            None => None,
        }),
{
    match value {
        Some(v) => {
            let vs = string_of(v);
            (string_of(key), AttrValue::Str(unescape(vs.as_str())))
        },
        None => {
            let no = ['n', 'o', '-'];
            assert(no@ == seq!['n', 'o', '-']);
            if chars_occur_at(key, 0, &no) {
                let rest = &key[3..key.len()];
                assert(rest@ == key@.skip(3));
                (string_of(rest), AttrValue::Bool(false))
            } else {
                (string_of(key), AttrValue::Bool(true))
            }
        },
    }
}

fn is_key_char(c: char) -> (r: bool)
    ensures
        r == key_pred()(c),
{
    !(space(c) || c == '=')
}

/// The attributes written in the text of a tag.
pub fn parse_attrs(s: &[char]) -> (attrs: Vec<(String, AttrValue)>)
    ensures
        attrs_view(attrs@) == parse_attrs_spec(s@),
{
    let mut attrs: Vec<(String, AttrValue)> = Vec::new();
    let mut i: usize = 0;
    assert(attrs_view(attrs@) == Seq::<(Seq<char>, AttrView)>::empty());
    while i < s.len()
        invariant
            i <= s.len(),
            attrs_from(s@, i as int, attrs_view(attrs@)) == parse_attrs_spec(s@),
        decreases s.len() - i,
    {
        if space(s[i]) || s[i] == '=' {
            i = i + 1;
        } else {
            let mut j = i;
            while j < s.len() && is_key_char(s[j])
                invariant
                    i <= j <= s.len(),
                    run_len(s@, i as int, key_pred()) == (j - i) + run_len(s@, j as int, key_pred()),
                decreases s.len() - j,
            {
                j = j + 1;
            }
            assert(j > i);
            let dq = ['=', '"'];
            let sq = ['=', '\''];
            assert(dq@ == seq!['=', '"']);
            assert(sq@ == seq!['=', '\'']);
            let mut end = j;
            let mut value: Option<&[char]> = None;
            if chars_occur_at(s, j, &dq) {
                if let Some(q) = find_char_exec(s, j + 2, '"') {
                    end = q + 1;
                    value = Some(&s[j + 2..q]);
                }
            }
            if value.is_none() && chars_occur_at(s, j, &sq) {
                if let Some(q) = find_char_exec(s, j + 2, '\'') {
                    end = q + 1;
                    value = Some(&s[j + 2..q]);
                }
            }
            let entry = attr_entry_exec(&s[i..j], value);
            insert_attr(&mut attrs, entry.0, entry.1);
            i = end;
        }
    }
    attrs
}

/// An element for the tag `t` with the given children.
pub open spec fn node_view(t: TokenView, children: Seq<ElementView>) -> ElementView {
    ElementView { tag: t.name, attrs: parse_attrs_spec(t.extra), children }
}

/// A text node holding `c`.
pub open spec fn text_view(c: Seq<char>) -> ElementView {
    ElementView { tag: text_tag(), attrs: seq![(content_key(), AttrView::Str(c))], children: Seq::empty() }
}

/// The state of folding the pieces of markup into a tree: the open tags with the
/// elements read inside each (the outermost first), whether the outermost frame was
/// closed, and whether a piece came after that.
pub struct FoldState {
    pub stack: Seq<(TokenView, Seq<ElementView>)>,
    pub root_closed: bool,
    pub failed: bool,
}

pub open spec fn root_token() -> TokenView {
    TokenView { name: Seq::empty(), position: TokenPosition::Open, extra: Seq::empty() }
}

pub open spec fn fold_init() -> FoldState {
    FoldState { stack: seq![(root_token(), Seq::empty())], root_closed: false, failed: false }
}

/// The stack with `e` added to the innermost open tag.
pub open spec fn add_to_top(stack: Seq<(TokenView, Seq<ElementView>)>, e: ElementView) -> Seq<(TokenView, Seq<ElementView>)> {
    let top = stack.last();
    stack.drop_last().push((top.0, top.1.push(e)))
}

/// One piece of markup folded in: text and tags without content go into the innermost
/// open tag; an opening tag opens; a closing tag closes the innermost open tag when
/// their names agree (and nothing otherwise).
pub open spec fn fold_step(st: FoldState, t: TokenLikeView) -> FoldState {
    if st.failed || st.root_closed || st.stack.len() == 0 {
        FoldState { failed: true, ..st }
    } else {
        match t {
            TokenLikeView::Str(c) => FoldState { stack: add_to_top(st.stack, text_view(c)), ..st },
            TokenLikeView::Token(tok) => match tok.position {
                TokenPosition::Close => if st.stack.last().0.name == tok.name {
                    if st.stack.len() == 1 {
                        FoldState { stack: Seq::empty(), root_closed: true, ..st }
                    } else {
                        let top = st.stack.last();
                        FoldState { stack: add_to_top(st.stack.drop_last(), node_view(top.0, top.1)), ..st }
                    }
                } else {
                    st
                },
                TokenPosition::Open => FoldState { stack: st.stack.push((tok, Seq::empty())), ..st },
                TokenPosition::Empty => FoldState {
                    stack: add_to_top(st.stack, node_view(tok, Seq::empty())),
                    ..st
                },
            },
        }
    }
}

/// All pieces folded in, from left to right.
pub open spec fn fold_from(st: FoldState, ts: Seq<TokenLikeView>) -> FoldState
    decreases ts.len(),
{
    if ts.len() == 0 {
        st
    } else {
        fold_from(fold_step(st, ts[0]), ts.drop_first())
    }
}

/// The tags still open at the end closed, the innermost first.
pub open spec fn collapse(stack: Seq<(TokenView, Seq<ElementView>)>) -> Seq<(TokenView, Seq<ElementView>)>
    decreases stack.len(),
{
    if stack.len() <= 1 {
        stack
    } else {
        let top = stack.last();
        collapse(add_to_top(stack.drop_last(), node_view(top.0, top.1)))
    }
}

/// Whether reading the markup would go on after its outermost frame was closed
/// (a closing tag with an empty name at the outermost level, followed by more).
pub open spec fn parse_fails(s: Seq<char>) -> bool {
    fold_from(fold_init(), lex_spec(s)).failed
}

/// The elements written by the markup `s`; `None` when a closing tag with an empty
/// name closed its outermost level.
pub open spec fn parse_spec(s: Seq<char>) -> Option<Seq<ElementView>> {
    let st = fold_from(fold_init(), lex_spec(s));
    if st.root_closed {
        None
    } else {
        Some(collapse(st.stack)[0].1)
    }
}

pub open spec fn frame_view(f: (Token, Vec<Element>)) -> (TokenView, Seq<ElementView>) {
    (f.0.view(), elements_view(f.1@))
}

pub open spec fn frames_view(fs: Seq<(Token, Vec<Element>)>) -> Seq<(TokenView, Seq<ElementView>)> {
    fs.map_values(|f: (Token, Vec<Element>)| frame_view(f))
}

/// The element for a tag and its children.
fn node_element(t: Token, children: Vec<Element>) -> (e: Element)
    ensures
        e.view() == node_view(t.view(), elements_view(children@)),
{
    let tag = string_of(t.name.as_slice());
    let attrs = parse_attrs(t.extra.as_slice());
    Element { tag, attrs, children }
}

fn text_element(c: Vec<char>) -> (e: Element)
    ensures
        e.view() == text_view(c@),
{
    let e = Element::text(string_of(c.as_slice()));
    e
}

pub(crate) proof fn lemma_elements_view_push(es: Seq<Element>, e: Element)
    ensures
        elements_view(es.push(e)) == elements_view(es).push(element_view(e)),
{
    assert(es.push(e).drop_last() == es);
}

/// Adds `e` to the innermost frame.
fn push_to_top(stack: &mut Vec<(Token, Vec<Element>)>, e: Element)
    requires
        old(stack).len() > 0,
    ensures
        final(stack).len() == old(stack).len(),
        frames_view(final(stack)@) == add_to_top(frames_view(old(stack)@), e.view()),
{
    let ghost fv = frames_view(stack@);
    let (t, mut cs) = stack.pop().unwrap();
    let ghost cs0 = cs@;
    cs.push(e);
    proof {
        lemma_elements_view_push(cs0, e);
    }
    stack.push((t, cs));
    assert(frames_view(stack@) =~= add_to_top(fv, e.view()));
}

/// Folds the pieces of markup into elements, as `fold_from` does from `fold_init`.
fn fold_tokens(tokens: Vec<TokenLike>, Ghost(tv): Ghost<Seq<TokenLikeView>>) -> (r: Result<
    Option<Vec<Element>>,
    (),
>)
    requires
        tv == tokens_view(tokens@),
    ensures
        ({
            let st = fold_from(fold_init(), tv);
            if st.failed {
                r is Err
            } else if st.root_closed {
                r matches Ok(None)
            } else {
                r matches Ok(Some(es)) && elements_view(es@) == collapse(st.stack)[0].1
            }
        }),
{
    let mut stack: Vec<(Token, Vec<Element>)> = Vec::new();
    stack.push((Token { name: Vec::new(), position: TokenPosition::Open, extra: Vec::new() }, Vec::new()));
    assert(frames_view(stack@) =~= fold_init().stack);
    let mut root_closed = false;
    let mut i: usize = 0;
    let ghost all = tokens@;
    let mut rest = reversed(tokens);
    assert(tv.skip(0) == tv);
    while rest.len() > 0
        invariant
            all.len() == i + rest.len(),
            all.len() <= usize::MAX,
            forall|j: int| 0 <= j < rest.len() ==> rest@[j] == all[all.len() - 1 - j],
            tv == tokens_view(all),
            ({
                let st = FoldState { stack: frames_view(stack@), root_closed, failed: false };
                fold_from(st, tv.skip(i as int)) == fold_from(fold_init(), tv)
            }),
            !root_closed ==> stack.len() > 0,
            root_closed ==> stack.len() == 0,
        decreases rest.len(),
    {
        let tok = rest.pop().unwrap();
        let ghost st = FoldState { stack: frames_view(stack@), root_closed, failed: false };
        assert(tv.skip(i as int)[0] == tok.view());
        assert(tv.skip(i as int).drop_first() == tv.skip(i + 1));
        if root_closed {
            proof {
                assert(fold_step(st, tok.view()).failed);
                lemma_fold_failed_stays(fold_step(st, tok.view()), tv.skip(i + 1));
                assert(tv.skip(i as int).len() > 0);
                assert(fold_from(st, tv.skip(i as int)) == fold_from(fold_step(st, tok.view()), tv.skip(i + 1)));
                assert(fold_from(fold_init(), tv).failed);
            }
            return Err(());
        }
        match tok {
            TokenLike::Str(c) => {
                let e = text_element(c);
                push_to_top(&mut stack, e);
            },
            TokenLike::Token(t) => {
                match t.position {
                    TokenPosition::Close => {
                        let top = stack.len() - 1;
                        if chars_eq_vec(&stack[top].0.name, &t.name) {
                            if stack.len() == 1 {
                                stack.pop();
                                root_closed = true;
                                assert(frames_view(stack@) =~= Seq::<(TokenView, Seq<ElementView>)>::empty());
                            } else {
                                let ghost fv = frames_view(stack@);
                                let (ft, fcs) = stack.pop().unwrap();
                                assert(frames_view(stack@) =~= fv.drop_last());
                                let e = node_element(ft, fcs);
                                push_to_top(&mut stack, e);
                            }
                        }
                    },
                    TokenPosition::Open => {
                        let ghost fv = frames_view(stack@);
                        let ghost tview = t.view();
                        stack.push((t, Vec::new()));
                        assert(frames_view(stack@) =~= fv.push((tview, Seq::<ElementView>::empty())));
                    },
                    TokenPosition::Empty => {
                        let e = node_element(t, Vec::new());
                        push_to_top(&mut stack, e);
                    },
                }
            },
        }
        i = i + 1;
    }
    proof {
        assert(tv.skip(i as int) =~= Seq::<TokenLikeView>::empty());
    }
    if root_closed {
        return Ok(None);
    }
    while stack.len() > 1
        invariant
            stack.len() >= 1,
            collapse(frames_view(stack@)) == collapse(fold_from(fold_init(), tv).stack),
        decreases stack.len(),
    {
        let ghost fv = frames_view(stack@);
        let (ft, fcs) = stack.pop().unwrap();
        assert(frames_view(stack@) =~= fv.drop_last());
        let e = node_element(ft, fcs);
        push_to_top(&mut stack, e);
    }
    let (_, es) = stack.pop().unwrap();
    Ok(Some(es))
}

/// The items of `v` in reverse order.
fn reversed<T>(v: Vec<T>) -> (r: Vec<T>)
    ensures
        r.len() == v.len(),
        forall|j: int| 0 <= j < v.len() ==> r@[j] == v@[v.len() - 1 - j],
{
    let ghost orig = v@;
    let mut v = v;
    let mut r: Vec<T> = Vec::new();
    while v.len() > 0
        invariant
            v.len() + r.len() == orig.len(),
            v@ == orig.take(v.len() as int),
            forall|j: int| 0 <= j < r.len() ==> r@[j] == orig[orig.len() - 1 - j],
        decreases v.len(),
    {
        let x = v.pop().unwrap();
        r.push(x);
    }
    r
}

proof fn lemma_fold_failed_stays(st: FoldState, ts: Seq<TokenLikeView>)
    requires
        st.failed,
    ensures
        fold_from(st, ts).failed,
    decreases ts.len(),
{
    if ts.len() > 0 {
        lemma_fold_failed_stays(fold_step(st, ts[0]), ts.drop_first());
    }
}

fn chars_eq_vec(a: &Vec<char>, b: &Vec<char>) -> (r: bool)
    ensures
        r == (a@ == b@),
{
    crate::text::chars_eq(a.as_slice(), b.as_slice())
}

proof fn lemma_attr_index_found(attrs: Seq<(Seq<char>, AttrView)>, key: Seq<char>)
    ensures
        match attr_index(attrs, key) {
            Some(i) => 0 <= i < attrs.len() && attrs[i].0 == key,
            None => forall|j: int| 0 <= j < attrs.len() ==> (#[trigger] attrs[j]).0 != key,
        },
    decreases attrs.len(),
{
    if attrs.len() > 0 && attrs[0].0 != key {
        let d = attrs.drop_first();
        lemma_attr_index_found(d, key);
        assert forall|j: int| 0 < j < attrs.len() implies (#[trigger] attrs[j]).0 == d[j - 1].0 by {}
    }
}

proof fn lemma_insert_unique(attrs: Seq<(Seq<char>, AttrView)>, entry: (Seq<char>, AttrView))
    requires
        attrs_unique(attrs),
    ensures
        attrs_unique(attrs_insert(attrs, entry)),
{
    lemma_attr_index_found(attrs, entry.0);
    let r = attrs_insert(attrs, entry);
    match attr_index(attrs, entry.0) {
        Some(i) => {
            assert forall|a: int, b: int| 0 <= a < r.len() && 0 <= b < r.len() && a != b implies r[a].0 != r[b].0 by {
                assert(r[a].0 == attrs[a].0);
                assert(r[b].0 == attrs[b].0);
            }
        },
        None => {
            assert forall|a: int, b: int| 0 <= a < r.len() && 0 <= b < r.len() && a != b implies r[a].0 != r[b].0 by {
                if a < attrs.len() && b < attrs.len() {
                    assert(r[a] == attrs[a] && r[b] == attrs[b]);
                } else if a < attrs.len() {
                    assert(r[a] == attrs[a]);
                } else if b < attrs.len() {
                    assert(r[b] == attrs[b]);
                }
            }
        },
    }
}

proof fn lemma_attrs_from_unique(s: Seq<char>, i: int, acc: Seq<(Seq<char>, AttrView)>)
    requires
        attrs_unique(acc),
    ensures
        attrs_unique(attrs_from(s, i, acc)),
    decreases s.len() - i,
{
    if i < 0 || i >= s.len() {
    } else if is_space(s[i]) || s[i] == '=' {
        lemma_attrs_from_unique(s, i + 1, acc);
    } else {
        let (e, key, value) = attr_at(s, i);
        if i < e <= s.len() {
            lemma_insert_unique(acc, attr_entry(key, value));
            lemma_attrs_from_unique(s, e, attrs_insert(acc, attr_entry(key, value)));
        }
    }
}

/// The frames of a fold hold elements with unique keys, and the stack empties only when
/// the outermost frame closes.
spec fn fold_unique(st: FoldState) -> bool {
    &&& forall|k: int| 0 <= k < st.stack.len() ==> elems_keys_unique(#[trigger] st.stack[k].1)
    &&& (st.root_closed || st.stack.len() > 0)
}

proof fn lemma_node_unique(t: TokenView, children: Seq<ElementView>)
    requires
        elems_keys_unique(children),
    ensures
        elem_keys_unique(node_view(t, children)),
{
    lemma_attrs_from_unique(t.extra, 0, Seq::empty());
}

proof fn lemma_add_to_top_unique(stack: Seq<(TokenView, Seq<ElementView>)>, e: ElementView)
    requires
        stack.len() > 0,
        forall|k: int| 0 <= k < stack.len() ==> elems_keys_unique(#[trigger] stack[k].1),
        elem_keys_unique(e),
    ensures
        forall|k: int| 0 <= k < add_to_top(stack, e).len() ==> elems_keys_unique(#[trigger] add_to_top(stack, e)[k].1),
        add_to_top(stack, e).len() == stack.len(),
{
    let r = add_to_top(stack, e);
    let top = stack.last();
    assert(elems_keys_unique(stack[stack.len() - 1].1));
    assert(top.1.push(e).drop_last() =~= top.1);
    assert forall|k: int| 0 <= k < r.len() implies elems_keys_unique(#[trigger] r[k].1) by {
        if k < stack.len() - 1 {
            assert(r[k] == stack[k]);
        }
    }
}

proof fn lemma_fold_step_unique(st: FoldState, t: TokenLikeView)
    requires
        fold_unique(st),
    ensures
        fold_unique(fold_step(st, t)),
{
    if st.failed || st.root_closed || st.stack.len() == 0 {
    } else {
        match t {
            TokenLikeView::Str(c) => {
                let e = text_view(c);
                assert(e.children =~= Seq::<ElementView>::empty());
                assert(elems_keys_unique(e.children));
                lemma_add_to_top_unique(st.stack, e);
            },
            TokenLikeView::Token(tok) => match tok.position {
                TokenPosition::Close => {
                    if st.stack.last().0.name == tok.name && st.stack.len() > 1 {
                        let top = st.stack.last();
                        let d = st.stack.drop_last();
                        assert(elems_keys_unique(st.stack[st.stack.len() - 1].1));
                        lemma_node_unique(top.0, top.1);
                        assert forall|k: int| 0 <= k < d.len() implies elems_keys_unique(#[trigger] d[k].1) by {
                            assert(d[k] == st.stack[k]);
                        }
                        lemma_add_to_top_unique(d, node_view(top.0, top.1));
                    }
                },
                TokenPosition::Open => {
                    let r = st.stack.push((tok, Seq::empty()));
                    assert forall|k: int| 0 <= k < r.len() implies elems_keys_unique(#[trigger] r[k].1) by {
                        if k < st.stack.len() {
                            assert(r[k] == st.stack[k]);
                        }
                    }
                },
                TokenPosition::Empty => {
                    assert(elems_keys_unique(Seq::<ElementView>::empty()));
                    lemma_node_unique(tok, Seq::empty());
                    lemma_add_to_top_unique(st.stack, node_view(tok, Seq::empty()));
                },
            },
        }
    }
}

proof fn lemma_fold_from_unique(st: FoldState, ts: Seq<TokenLikeView>)
    requires
        fold_unique(st),
    ensures
        fold_unique(fold_from(st, ts)),
    decreases ts.len(),
{
    if ts.len() > 0 {
        lemma_fold_step_unique(st, ts[0]);
        lemma_fold_from_unique(fold_step(st, ts[0]), ts.drop_first());
    }
}

proof fn lemma_collapse_unique(stack: Seq<(TokenView, Seq<ElementView>)>)
    requires
        stack.len() > 0,
        forall|k: int| 0 <= k < stack.len() ==> elems_keys_unique(#[trigger] stack[k].1),
    ensures
        collapse(stack).len() > 0,
        elems_keys_unique(collapse(stack)[0].1),
    decreases stack.len(),
{
    if stack.len() > 1 {
        let top = stack.last();
        let d = stack.drop_last();
        assert(elems_keys_unique(stack[stack.len() - 1].1));
        lemma_node_unique(top.0, top.1);
        assert forall|k: int| 0 <= k < d.len() implies elems_keys_unique(#[trigger] d[k].1) by {
            assert(d[k] == stack[k]);
        }
        lemma_add_to_top_unique(d, node_view(top.0, top.1));
        lemma_collapse_unique(add_to_top(d, node_view(top.0, top.1)));
    } else {
        assert(elems_keys_unique(stack[0].1));
    }
}

/// What markup reads holds no attribute key twice in any element.
pub proof fn lemma_parse_keys_unique(s: Seq<char>)
    ensures
        parse_spec(s) matches Some(es) ==> elems_keys_unique(es),
{
    let st0 = fold_init();
    assert(elems_keys_unique(st0.stack[0].1));
    lemma_fold_from_unique(st0, lex_spec(s));
    let st = fold_from(st0, lex_spec(s));
    if !st.root_closed {
        lemma_collapse_unique(st.stack);
    }
}

/// Reads Satori message markup into elements; `None` when a closing tag with an
/// empty name closes its outermost level.  No element read holds an attribute key twice.
pub fn parse(src: &str) -> (r: Option<Vec<Element>>)
    requires
        !parse_fails(src@),
    ensures
        match parse_spec(src@) {
            Some(es) => r matches Some(v) && elements_view(v@) == es,
            None => r is None,
        },
        r matches Some(v) ==> elems_keys_unique(elements_view(v@)),
{
    proof {
        lemma_parse_keys_unique(src@);
    }
    let cs = chars_of(src);
    let tokens = lex_tokens(cs.as_slice());
    match fold_tokens(tokens, Ghost(tokens_view(tokens@))) {
        Ok(r) => r,
        Err(()) => None,
    }
}

/// Whether `parse` of `src` is out of its domain: the markup goes on after a
/// closing tag with an empty name closed its outermost level.
pub fn parse_would_fail(src: &str) -> (r: bool)
    ensures
        r == parse_fails(src@),
{
    let cs = chars_of(src);
    let tokens = lex_tokens(cs.as_slice());
    fold_tokens(tokens, Ghost(tokens_view(tokens@))).is_err()
}

} // verus!
