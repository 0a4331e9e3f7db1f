use vstd::prelude::*;

use crate::element::{
    attrs_markup, attrs_unique, content_key, markup_view, markup_views, text_tag, AttrView, ElementView,
};
use crate::entities::{escape_char, escape_spec, lemma_unescape_escape, run_len, unescape_spec};
use crate::markup::{
    attr_at, attr_entry, attr_index, attrs_from, attrs_insert, comment_open, content_tokens, find_char,
    find_seq, find_tag, is_name_char, key_pred, name_pred, parse_attrs_spec, tag_token, trailing_space_len,
    trim_content, TagMatch, TokenPosition, TokenView, TokenLikeView, lex_spec, space_pred, FoldState,
    fold_from, fold_step, fold_init, add_to_top, node_view, text_view, root_token, collapse, parse_fails,
    parse_spec,
};
use crate::text::{is_space, occurs_at};

verus! {

/// A character of a name: an ASCII letter or digit, `-` or `_`.
pub open spec fn word_char_ok(c: char) -> bool {
    let u = c as u32;
    ||| (0x61 <= u && u <= 0x7a)
    ||| (0x41 <= u && u <= 0x5a)
    ||| (0x30 <= u && u <= 0x39)
    ||| u == 0x2d
    ||| u == 0x5f
}

pub open spec fn is_ascii_letter(c: char) -> bool {
    let u = c as u32;
    (0x61 <= u && u <= 0x7a) || (0x41 <= u && u <= 0x5a)
}

/// A tag that markup can carry: it starts with a letter, holds name characters only,
/// and is not the tag of text nodes.
pub open spec fn tag_ok(t: Seq<char>) -> bool {
    &&& t.len() > 0
    &&& is_ascii_letter(t[0])
    &&& forall|i: int| 0 <= i < t.len() ==> word_char_ok(#[trigger] t[i])
    &&& t != text_tag()
}

/// An attribute that markup can carry: a non-empty key of name characters, and a
/// true flag whose key does not start with `no-`.
pub open spec fn attr_ok(a: (Seq<char>, AttrView)) -> bool {
    &&& a.0.len() > 0
    &&& forall|i: int| 0 <= i < a.0.len() ==> word_char_ok(#[trigger] a.0[i])
    &&& a.1 == AttrView::Bool(true) ==> !occurs_at(a.0, 0, seq!['n', 'o', '-'])
}

/// Attributes that markup can carry, no key twice.
pub open spec fn attrs_ok(attrs: Seq<(Seq<char>, AttrView)>) -> bool {
    &&& forall|i: int| 0 <= i < attrs.len() ==> attr_ok(#[trigger] attrs[i])
    &&& attrs_unique(attrs)
}

/// A text node that markup can carry: only its non-empty `content`, which neither
/// starts nor ends with whitespace.
pub open spec fn text_node_ok(e: ElementView) -> bool {
    &&& e.children.len() == 0
    &&& e.attrs.len() == 1
    &&& e.attrs[0].0 == content_key()
    &&& match e.attrs[0].1 {
        AttrView::Str(c) => c.len() > 0 && !is_space(c[0]) && !is_space(c.last()),
        AttrView::Bool(_) => false,
    }
}

/// An element that markup writes and reads back the same.
pub open spec fn elem_ok(e: ElementView) -> bool
    decreases e,
{
    if e.is_text() {
        text_node_ok(e)
    } else {
        tag_ok(e.tag) && attrs_ok(e.attrs) && elems_ok(e.children)
    }
}

/// Elements that markup writes and reads back the same: each one is, and no two text
/// nodes stand side by side.
pub open spec fn elems_ok(es: Seq<ElementView>) -> bool
    decreases es,
{
    if es.len() == 0 {
        true
    } else {
        &&& elems_ok(es.drop_last())
        &&& elem_ok(es.last())
        &&& !(es.len() >= 2 && es[es.len() - 2].is_text() && es.last().is_text())
    }
}

spec fn no_char(s: Seq<char>, c: char) -> bool {
    forall|i: int| 0 <= i < s.len() ==> #[trigger] s[i] != c
}

proof fn lemma_word_char(c: char)
    requires
        word_char_ok(c),
    ensures
        !is_space(c),
        c != '>',
        c != '<',
        c != '/',
        c != '!',
        c != '=',
        c != '"',
        c != '\'',
        is_name_char(c),
        (key_pred())(c),
{
}

proof fn lemma_escape_chars(s: Seq<char>, inline: bool)
    ensures
        no_char(escape_spec(s, inline), '<'),
        no_char(escape_spec(s, inline), '>'),
        inline ==> no_char(escape_spec(s, inline), '"'),
    decreases s.len(),
{
    if s.len() > 0 {
        lemma_escape_chars(s.drop_last(), inline);
        let a = escape_spec(s.drop_last(), inline);
        let b = escape_char(s.last(), inline);
        let r = a + b;
        assert(escape_spec(s, inline) == r);
        assert forall|i: int| 0 <= i < r.len() implies #[trigger] r[i] != '<' && r[i] != '>' && (inline ==> r[i]
            != '"') by {
            if i < a.len() {
                assert(r[i] == a[i]);
            } else {
                assert(r[i] == b[i - a.len()]);
            }
        }
    }
}

proof fn lemma_run_len_exact(t: Seq<char>, k: int, n: int, p: spec_fn(char) -> bool)
    requires
        0 <= k,
        0 <= n,
        k + n <= t.len(),
        forall|j: int| k <= j < k + n ==> p(#[trigger] t[j]),
        k + n == t.len() || !p(t[k + n]),
    ensures
        run_len(t, k, p) == n,
    decreases n,
{
    if n > 0 {
        lemma_run_len_exact(t, k + 1, n - 1, p);
    }
}

/// The markup of one attribute, after its space.
spec fn attr_body(a: (Seq<char>, AttrView)) -> Seq<char> {
    match a.1 {
        AttrView::Bool(true) => a.0,
        AttrView::Bool(false) => seq!['n', 'o', '-'] + a.0,
        AttrView::Str(v) => a.0 + seq!['=', '"'] + escape_spec(v, true) + seq!['"'],
    }
}

proof fn lemma_attrs_markup_step(attrs: Seq<(Seq<char>, AttrView)>, n: int)
    requires
        0 <= n < attrs.len(),
    ensures
        attrs_markup(attrs.take(n + 1)) == attrs_markup(attrs.take(n)) + seq![' '] + attr_body(attrs[n]),
{
    assert(attrs.take(n + 1).drop_last() =~= attrs.take(n));
    assert(attrs.take(n + 1).last() == attrs[n]);
}

proof fn lemma_attrs_markup_prefix(attrs: Seq<(Seq<char>, AttrView)>, n: int)
    requires
        0 <= n <= attrs.len(),
    ensures
        attrs_markup(attrs.take(n)).len() <= attrs_markup(attrs).len(),
        attrs_markup(attrs).take(attrs_markup(attrs.take(n)).len() as int) == attrs_markup(attrs.take(n)),
    decreases attrs.len(),
{
    if n == attrs.len() {
        assert(attrs.take(n) =~= attrs);
        assert(attrs_markup(attrs).take(attrs_markup(attrs).len() as int) =~= attrs_markup(attrs));
    } else {
        let d = attrs.drop_last();
        assert(attrs.take(n) =~= d.take(n));
        lemma_attrs_markup_prefix(d, n);
        let m = attrs_markup(d);
        let l = attrs_markup(d.take(n)).len() as int;
        let full = attrs_markup(attrs);
        assert(full == m + seq![' '] + attr_body(attrs.last()));
        assert(full.take(l) =~= m.take(l));
    }
}

/// The shape of the markup of attributes that markup can carry.
proof fn lemma_attrs_markup_shape(attrs: Seq<(Seq<char>, AttrView)>)
    requires
        forall|i: int| 0 <= i < attrs.len() ==> attr_ok(#[trigger] attrs[i]),
    ensures
        no_char(attrs_markup(attrs), '>'),
        no_char(attrs_markup(attrs), '<'),
        attrs_markup(attrs).len() > 0 ==> attrs_markup(attrs)[0] == ' ',
        attrs_markup(attrs).len() > 0 ==> attrs_markup(attrs).last() != '/',
        attrs_markup(attrs).len() > 0 ==> !is_space(attrs_markup(attrs).last()),
    decreases attrs.len(),
{
    if attrs.len() > 0 {
        let d = attrs.drop_last();
        assert forall|i: int| 0 <= i < d.len() implies attr_ok(#[trigger] d[i]) by {
            assert(d[i] == attrs[i]);
        }
        lemma_attrs_markup_shape(d);
        let a = attrs.last();
        assert(attr_ok(attrs[attrs.len() - 1]));
        let m = attrs_markup(d);
        let b = attr_body(a);
        let full = attrs_markup(attrs);
        assert(full == m + seq![' '] + b);
        let key = a.0;
        assert(word_char_ok(key[key.len() - 1]));
        lemma_word_char(key[key.len() - 1]);
        assert forall|j: int| 0 <= j < key.len() implies #[trigger] key[j] != '>' && key[j] != '<' by {
            lemma_word_char(key[j]);
        }
        match a.1 {
            AttrView::Str(v) => {
                lemma_escape_chars(v, true);
            },
            _ => {},
        }
        assert forall|j: int| 0 <= j < b.len() implies #[trigger] b[j] != '>' && b[j] != '<' by {
            match a.1 {
                AttrView::Bool(true) => {},
                AttrView::Bool(false) => {
                    if j >= 3 {
                        assert(b[j] == key[j - 3]);
                    }
                },
                AttrView::Str(v) => {
                    let ev = escape_spec(v, true);
                    if j < key.len() {
                        assert(b[j] == key[j]);
                    } else if j >= key.len() + 2 && j < key.len() + 2 + ev.len() {
                        assert(b[j] == ev[j - key.len() - 2]);
                    }
                },
            }
        }
        assert(b.len() > 0);
        assert(b.last() == key.last() || b.last() == '"');
        assert forall|j: int| 0 <= j < full.len() implies #[trigger] full[j] != '>' && full[j] != '<' by {
            if j < m.len() {
                assert(full[j] == m[j]);
            } else if j > m.len() {
                assert(full[j] == b[j - m.len() - 1]);
            }
        }
        if m.len() > 0 {
            assert(full[0] == m[0]);
        }
        assert(full.last() == b.last());
    }
}

proof fn lemma_find_char_skip(s: Seq<char>, from: int, to: int, c: char)
    requires
        0 <= from <= to <= s.len(),
        forall|j: int| from <= j < to ==> #[trigger] s[j] != c,
    ensures
        find_char(s, from, c) == find_char(s, to, c),
    decreases to - from,
{
    if from < to {
        lemma_find_char_skip(s, from + 1, to, c);
    }
}

proof fn lemma_attr_index_absent(attrs: Seq<(Seq<char>, AttrView)>, key: Seq<char>)
    requires
        forall|i: int| 0 <= i < attrs.len() ==> (#[trigger] attrs[i]).0 != key,
    ensures
        attr_index(attrs, key) is None,
    decreases attrs.len(),
{
    if attrs.len() > 0 {
        assert(attrs[0].0 != key);
        assert forall|i: int| 0 <= i < attrs.drop_first().len() implies (#[trigger] attrs.drop_first()[i]).0
            != key by {
            assert(attrs.drop_first()[i] == attrs[i + 1]);
        }
        lemma_attr_index_absent(attrs.drop_first(), key);
    }
}

/// The attribute whose markup stands in `s` after the space at `i`, up to `e`.
spec fn attr_in(s: Seq<char>, i: int, a: (Seq<char>, AttrView), e: int) -> bool {
    &&& attr_ok(a)
    &&& 0 <= i
    &&& e == i + 1 + attr_body(a).len()
    &&& e <= s.len()
    &&& forall|x: int| 0 <= x < attr_body(a).len() ==> #[trigger] s[i + 1 + x] == attr_body(a)[x]
    &&& (e == s.len() || s[e] == ' ')
}

proof fn lemma_not_quote_at(s: Seq<char>, j: int)
    requires
        0 <= j,
        j == s.len() || s[j] == ' ',
    ensures
        !occurs_at(s, j, seq!['=', '"']),
        !occurs_at(s, j, seq!['=', '\'']),
{
    if occurs_at(s, j, seq!['=', '"']) {
        assert(s.subrange(j, j + 2)[0] == s[j]);
    }
    if occurs_at(s, j, seq!['=', '\'']) {
        assert(s.subrange(j, j + 2)[0] == s[j]);
    }
}

proof fn lemma_read_flag(s: Seq<char>, i: int, a: (Seq<char>, AttrView), e: int)
    requires
        attr_in(s, i, a, e),
        a.1 == AttrView::Bool(true),
    ensures
        attr_at(s, i + 1).0 == e,
        attr_entry(attr_at(s, i + 1).1, attr_at(s, i + 1).2) == a,
{
    let key = a.0;
    let kl = key.len() as int;
    let b = attr_body(a);
    assert(b == key);
    assert forall|j: int| i + 1 <= j < i + 1 + kl implies (key_pred())(#[trigger] s[j]) by {
        assert(s[i + 1 + (j - i - 1)] == b[j - i - 1]);
        lemma_word_char(key[j - i - 1]);
    }
    lemma_run_len_exact(s, i + 1, kl, key_pred());
    lemma_not_quote_at(s, e);
    assert(s.subrange(i + 1, e) =~= key) by {
        assert forall|x: int| 0 <= x < kl implies #[trigger] s.subrange(i + 1, e)[x] == key[x] by {
            assert(s[i + 1 + x] == b[x]);
        }
    }
}

proof fn lemma_read_false_flag(s: Seq<char>, i: int, a: (Seq<char>, AttrView), e: int)
    requires
        attr_in(s, i, a, e),
        a.1 == AttrView::Bool(false),
    ensures
        attr_at(s, i + 1).0 == e,
        attr_entry(attr_at(s, i + 1).1, attr_at(s, i + 1).2) == a,
{
    let key = a.0;
    let b = attr_body(a);
    let nk = seq!['n', 'o', '-'] + key;
    assert(b == nk);
    assert forall|j: int| i + 1 <= j < i + 1 + nk.len() implies (key_pred())(#[trigger] s[j]) by {
        assert(s[i + 1 + (j - i - 1)] == b[j - i - 1]);
        if j - i - 1 >= 3 {
            assert(b[j - i - 1] == key[j - i - 4]);
            lemma_word_char(key[j - i - 4]);
        }
    }
    lemma_run_len_exact(s, i + 1, nk.len() as int, key_pred());
    lemma_not_quote_at(s, e);
    assert(s.subrange(i + 1, e) =~= nk) by {
        assert forall|x: int| 0 <= x < nk.len() implies #[trigger] s.subrange(i + 1, e)[x] == nk[x] by {
            assert(s[i + 1 + x] == b[x]);
        }
    }
    assert(occurs_at(nk, 0, seq!['n', 'o', '-'])) by {
        assert(nk.subrange(0, 3) =~= seq!['n', 'o', '-']);
    }
    assert(nk.skip(3) =~= key);
}

proof fn lemma_read_str(s: Seq<char>, i: int, a: (Seq<char>, AttrView), e: int, v: Seq<char>)
    requires
        attr_in(s, i, a, e),
        a.1 == AttrView::Str(v),
    ensures
        attr_at(s, i + 1).0 == e,
        attr_entry(attr_at(s, i + 1).1, attr_at(s, i + 1).2) == a,
{
    let key = a.0;
    let kl = key.len() as int;
    let b = attr_body(a);
    let ev = escape_spec(v, true);
    lemma_escape_chars(v, true);
    assert(b == key + seq!['=', '"'] + ev + seq!['"']);
    assert forall|j: int| i + 1 <= j < i + 1 + kl implies (key_pred())(#[trigger] s[j]) by {
        assert(s[i + 1 + (j - i - 1)] == b[j - i - 1]);
        assert(b[j - i - 1] == key[j - i - 1]);
        lemma_word_char(key[j - i - 1]);
    }
    let j = i + 1 + kl;
    assert(s[i + 1 + kl] == b[kl]);
    lemma_run_len_exact(s, i + 1, kl, key_pred());
    assert(s[i + 1 + (kl + 1)] == b[kl + 1]);
    assert(occurs_at(s, j, seq!['=', '"'])) by {
        assert(s.subrange(j, j + 2) =~= seq!['=', '"']);
    }
    let qe = j + 2 + ev.len();
    assert forall|x: int| j + 2 <= x < qe implies #[trigger] s[x] != '"' by {
        assert(s[i + 1 + (x - i - 1)] == b[x - i - 1]);
        assert(b[x - i - 1] == ev[x - j - 2]);
    }
    assert(s[i + 1 + (qe - i - 1)] == b[qe - i - 1]);
    lemma_find_char_skip(s, j + 2, qe, '"');
    assert(s.subrange(i + 1, j) =~= key) by {
        assert forall|x: int| 0 <= x < kl implies #[trigger] s.subrange(i + 1, j)[x] == key[x] by {
            assert(s[i + 1 + x] == b[x]);
        }
    }
    assert(s.subrange(j + 2, qe) =~= ev) by {
        assert forall|x: int| 0 <= x < ev.len() implies #[trigger] s.subrange(j + 2, qe)[x] == ev[x] by {
            assert(s[i + 1 + (kl + 2 + x)] == b[kl + 2 + x]);
        }
    }
    lemma_unescape_escape(v, true);
}

proof fn lemma_read_attr(s: Seq<char>, i: int, a: (Seq<char>, AttrView), e: int)
    requires
        attr_in(s, i, a, e),
    ensures
        attr_at(s, i + 1).0 == e,
        attr_entry(attr_at(s, i + 1).1, attr_at(s, i + 1).2) == a,
        i + 1 < e,
        !is_space(s[i + 1]),
        s[i + 1] != '=',
{
    let b = attr_body(a);
    lemma_word_char(a.0[0]);
    assert(b.len() > 0 && b[0] == a.0[0] || b[0] == 'n');
    assert(s[i + 1 + 0] == b[0]);
    match a.1 {
        AttrView::Bool(true) => lemma_read_flag(s, i, a, e),
        AttrView::Bool(false) => lemma_read_false_flag(s, i, a, e),
        AttrView::Str(v) => lemma_read_str(s, i, a, e, v),
    }
}

/// Reading the attributes of `attrs_markup(attrs)` from the end of the markup of its
/// first `n` attributes on.
proof fn lemma_attrs_from(attrs: Seq<(Seq<char>, AttrView)>, n: int)
    requires
        attrs_ok(attrs),
        0 <= n <= attrs.len(),
    ensures
        attrs_from(attrs_markup(attrs), attrs_markup(attrs.take(n)).len() as int, attrs.take(n)) == attrs,
    decreases attrs.len() - n,
{
    let s = attrs_markup(attrs);
    let i = attrs_markup(attrs.take(n)).len() as int;
    lemma_attrs_markup_prefix(attrs, n);
    if n == attrs.len() {
        assert(attrs.take(n) =~= attrs);
    } else {
        lemma_attrs_markup_prefix(attrs, n + 1);
        lemma_attrs_markup_step(attrs, n);
        let a = attrs[n];
        assert(attr_ok(attrs[n]));
        let b = attr_body(a);
        let q = attrs_markup(attrs.take(n + 1));
        let e = q.len() as int;
        assert forall|x: int| 0 <= x < e implies #[trigger] s[x] == q[x] by {
            assert(s.take(e)[x] == s[x]);
        }
        assert(s[i] == q[i]);
        if n + 1 < attrs.len() {
            lemma_attrs_markup_prefix(attrs, n + 2);
            lemma_attrs_markup_step(attrs, n + 1);
            let q2 = attrs_markup(attrs.take(n + 2));
            assert(s.take(q2.len() as int)[e] == s[e]);
            assert(q2[e] == ' ');
        } else {
            assert(attrs.take(n + 1) =~= attrs);
        }
        assert forall|x: int| 0 <= x < b.len() implies #[trigger] s[i + 1 + x] == b[x] by {
            assert(s[i + 1 + x] == q[i + 1 + x]);
        }
        assert(attr_in(s, i, a, e));
        lemma_read_attr(s, i, a, e);
        assert(attrs_from(s, i, attrs.take(n)) == attrs_from(s, i + 1, attrs.take(n)));
        let acc = attrs.take(n);
        assert forall|x: int| 0 <= x < acc.len() implies (#[trigger] acc[x]).0 != a.0 by {
            assert(acc[x] == attrs[x]);
        }
        lemma_attr_index_absent(acc, a.0);
        assert(attrs_insert(acc, a) =~= attrs.take(n + 1));
        lemma_attrs_from(attrs, n + 1);
    }
}

/// The attributes read from their markup are the attributes written.
proof fn lemma_parse_attrs_markup(attrs: Seq<(Seq<char>, AttrView)>)
    requires
        attrs_ok(attrs),
    ensures
        parse_attrs_spec(attrs_markup(attrs)) == attrs,
{
    lemma_attrs_from(attrs, 0);
    assert(attrs.take(0) =~= Seq::<(Seq<char>, AttrView)>::empty());
}


spec fn opt_shift(o: Option<int>, d: int) -> Option<int> {
    match o {
        Some(k) => Some(k + d),
        None => None,
    }
}

spec fn tag_shift(o: Option<TagMatch>, d: int) -> Option<TagMatch> {
    match o {
        Some(m) => Some(TagMatch { start: m.start + d, end: m.end + d, token: m.token }),
        None => None,
    }
}

proof fn lemma_find_char_found(s: Seq<char>, from: int, c: char)
    requires
        0 <= from,
    ensures
        match find_char(s, from, c) {
            Some(k) => from <= k < s.len() && s[k] == c,
            None => true,
        },
    decreases s.len() - from,
{
    if from < s.len() && s[from] != c {
        lemma_find_char_found(s, from + 1, c);
    }
}

proof fn lemma_find_char_shift(t: Seq<char>, r: Seq<char>, i: int, c: char)
    requires
        0 <= i,
    ensures
        find_char(t + r, t.len() + i, c) == opt_shift(find_char(r, i, c), t.len() as int),
    decreases r.len() - i,
{
    if i < r.len() {
        assert((t + r)[t.len() + i] == r[i]);
        lemma_find_char_shift(t, r, i + 1, c);
    }
}

proof fn lemma_occurs_shift(t: Seq<char>, r: Seq<char>, i: int, p: Seq<char>)
    requires
        0 <= i,
    ensures
        occurs_at(t + r, t.len() + i, p) == occurs_at(r, i, p),
{
    if i + p.len() <= r.len() {
        assert((t + r).subrange(t.len() + i, t.len() + i + p.len()) =~= r.subrange(i, i + p.len()));
    }
}

proof fn lemma_find_seq_shift(t: Seq<char>, r: Seq<char>, i: int, p: Seq<char>)
    requires
        0 <= i,
    ensures
        find_seq(t + r, t.len() + i, p) == opt_shift(find_seq(r, i, p), t.len() as int),
    decreases r.len() - i,
{
    lemma_occurs_shift(t, r, i, p);
    if i < r.len() {
        lemma_find_seq_shift(t, r, i + 1, p);
    }
}

/// Text without `<` before some markup does not change where its first tag is found.
proof fn lemma_find_tag_shift(t: Seq<char>, r: Seq<char>)
    requires
        no_char(t, '<'),
    ensures
        find_tag(t + r) == tag_shift(find_tag(r), t.len() as int),
{
    let s = t + r;
    let tl = t.len() as int;
    assert forall|j: int| 0 <= j < tl implies #[trigger] s[j] != '<' by {
        assert(s[j] == t[j]);
    }
    lemma_find_char_skip(s, 0, tl, '<');
    lemma_find_char_shift(t, r, 0, '<');
    lemma_find_char_found(r, 0, '<');
    match find_char(r, 0, '<') {
        Some(a) => {
            lemma_find_char_shift(t, r, a + 1, '>');
            lemma_find_char_found(r, a + 1, '>');
            lemma_occurs_shift(t, r, a, comment_open());
            lemma_find_seq_shift(t, r, a + 4, crate::markup::comment_close());
            match find_char(r, a + 1, '>') {
                Some(k) => {
                    assert(s.subrange(tl + a + 1, tl + k) =~= r.subrange(a + 1, k));
                },
                None => {},
            }
        },
        None => {},
    }
}

spec fn tag_first(r: Seq<char>) -> bool {
    find_tag(r) matches Some(m) && m.start == 0 && 0 < m.end <= r.len()
}

proof fn lemma_content_empty()
    ensures
        content_tokens(Seq::empty()) == Seq::<TokenLikeView>::empty(),
{
    lemma_unescape_escape(Seq::empty(), false);
    assert(escape_spec(Seq::empty(), false) == Seq::<char>::empty());
}

proof fn lemma_lex_empty()
    ensures
        lex_spec(Seq::empty()) == Seq::<TokenLikeView>::empty(),
{
    lemma_content_empty();
    assert(find_char(Seq::<char>::empty(), 0, '<') is None);
}

proof fn lemma_lex_text_prefix(t: Seq<char>, r: Seq<char>)
    requires
        no_char(t, '<'),
        r.len() == 0 || tag_first(r),
    ensures
        lex_spec(t + r) == content_tokens(t) + lex_spec(r),
{
    lemma_find_tag_shift(t, r);
    lemma_content_empty();
    let s = t + r;
    let tl = t.len() as int;
    if r.len() == 0 {
        lemma_lex_empty();
        assert(s =~= t);
        assert(find_tag(r) is None);
        assert(content_tokens(t) + Seq::<TokenLikeView>::empty() =~= content_tokens(t));
    } else {
        let m = find_tag(r).unwrap();
        assert(s.take(tl) =~= t);
        assert(s.skip(m.end + tl) =~= r.skip(m.end));
        assert(r.take(0) =~= Seq::<char>::empty());
        let mid = match m.token {
            Some(x) => seq![TokenLikeView::Token(x)],
            None => Seq::empty(),
        };
        assert(lex_spec(r) == Seq::<TokenLikeView>::empty() + mid + lex_spec(r.skip(m.end)));
        assert(Seq::<TokenLikeView>::empty() + mid + lex_spec(r.skip(m.end)) =~= mid + lex_spec(r.skip(m.end)));
        assert(content_tokens(t) + mid + lex_spec(r.skip(m.end)) =~= content_tokens(t) + (mid + lex_spec(
            r.skip(m.end),
        )));
    }
}

/// A tag at the very start of markup: `<`, the text of the tag, `>`.
proof fn lemma_find_tag_at_start(inner: Seq<char>, rest: Seq<char>)
    requires
        no_char(inner, '>'),
        inner.len() > 0,
        inner[0] != '!',
    ensures
        find_tag(seq!['<'] + inner + seq!['>'] + rest) == Some(
            TagMatch { start: 0, end: inner.len() + 2int, token: Some(tag_token(inner)) },
        ),
        tag_first(seq!['<'] + inner + seq!['>'] + rest),
{
    let s = seq!['<'] + inner + seq!['>'] + rest;
    let k = inner.len() + 1int;
    assert(s[0] == '<');
    assert forall|j: int| 1 <= j < k implies #[trigger] s[j] != '>' by {
        assert(s[j] == inner[j - 1]);
    }
    assert(s[k] == '>');
    lemma_find_char_skip(s, 1, k, '>');
    assert(s[1] == inner[0]);
    assert(!occurs_at(s, 0, comment_open())) by {
        if occurs_at(s, 0, comment_open()) {
            assert(s.subrange(0, 4)[1] == s[1]);
        }
    }
    assert(s.subrange(1, k) =~= inner);
}

proof fn lemma_trailing_zero(a: Seq<char>)
    requires
        a.len() == 0 || !is_space(a.last()),
    ensures
        trailing_space_len(a) == 0,
{
}

/// The tag read from `tag attrs` (with a `/` after them for an element without content).
proof fn lemma_head_token(tag: Seq<char>, attrs: Seq<(Seq<char>, AttrView)>, empty: bool)
    requires
        tag_ok(tag),
        forall|i: int| 0 <= i < attrs.len() ==> attr_ok(#[trigger] attrs[i]),
    ensures
        tag_token(if empty { tag + attrs_markup(attrs) + seq!['/'] } else { tag + attrs_markup(attrs) }) == (
        TokenView {
            name: tag,
            position: if empty { TokenPosition::Empty } else { TokenPosition::Open },
            extra: attrs_markup(attrs),
        }),
{
    let a = attrs_markup(attrs);
    lemma_attrs_markup_shape(attrs);
    let inner = if empty { tag + a + seq!['/'] } else { tag + a };
    let tl = tag.len() as int;
    lemma_word_char(tag[0]);
    assert(inner[0] == tag[0]);
    assert forall|j: int| 0 <= j < tl implies (name_pred())(#[trigger] inner[j]) by {
        assert(inner[j] == tag[j]);
        lemma_word_char(tag[j]);
    }
    if tl < inner.len() {
        if a.len() > 0 {
            assert(inner[tl] == a[0]);
        } else {
            assert(inner[tl] == '/');
        }
    }
    lemma_run_len_exact(inner, 0, tl, name_pred());
    let r = inner.subrange(tl, inner.len() as int);
    if empty {
        assert(r =~= a + seq!['/']);
        assert(r.drop_last() =~= a);
    } else {
        assert(r =~= a);
    }
    lemma_trailing_zero(a);
    assert(a.take(a.len() as int) =~= a);
    assert(inner.subrange(0, tl) =~= tag);
}

proof fn lemma_close_token(tag: Seq<char>)
    requires
        tag_ok(tag),
    ensures
        tag_token(seq!['/'] + tag) == (TokenView { name: tag, position: TokenPosition::Close, extra: Seq::empty() }),
{
    let inner = seq!['/'] + tag;
    let tl = tag.len() as int;
    assert forall|j: int| 1 <= j < 1 + tl implies (name_pred())(#[trigger] inner[j]) by {
        assert(inner[j] == tag[j - 1]);
        lemma_word_char(tag[j - 1]);
    }
    lemma_run_len_exact(inner, 1, tl, name_pred());
    assert(inner.subrange(1, 1 + tl) =~= tag);
    assert(inner.subrange(1 + tl, inner.len() as int) =~= Seq::<char>::empty());
    lemma_trailing_zero(Seq::<char>::empty());
    assert(Seq::<char>::empty().take(0) =~= Seq::<char>::empty());
}

proof fn lemma_trim_clean(c: Seq<char>)
    requires
        c.len() > 0,
        !is_space(c[0]),
        !is_space(c.last()),
    ensures
        trim_content(c) == c,
{
    lemma_run_len_exact(c, 0, 0, space_pred());
    assert(!c.take(0).contains('\n'));
    lemma_trailing_zero(c);
    assert(c.skip(c.len() as int) =~= Seq::<char>::empty());
    assert(!c.skip(c.len() as int).contains('\n'));
    assert(c.take(c.len() as int) =~= c);
}

/// The tag that opens an element (or stands for one without content).
spec fn head_token(e: ElementView) -> TokenView {
    TokenView {
        name: e.tag,
        position: if e.children.len() == 0 { TokenPosition::Empty } else { TokenPosition::Open },
        extra: attrs_markup(e.attrs),
    }
}

spec fn close_token(tag: Seq<char>) -> TokenView {
    TokenView { name: tag, position: TokenPosition::Close, extra: Seq::empty() }
}

/// The pieces that the markup of an element lexes into.
spec fn elem_tokens(e: ElementView) -> Seq<TokenLikeView>
    decreases e,
{
    if e.is_text() {
        seq![TokenLikeView::Str(e.text().unwrap())]
    } else if e.children.len() == 0 {
        seq![TokenLikeView::Token(head_token(e))]
    } else {
        seq![TokenLikeView::Token(head_token(e))] + elems_tokens(e.children) + seq![
            TokenLikeView::Token(close_token(e.tag)),
        ]
    }
}

spec fn elems_tokens(es: Seq<ElementView>) -> Seq<TokenLikeView>
    decreases es,
{
    if es.len() == 0 {
        Seq::empty()
    } else {
        elems_tokens(es.drop_last()) + elem_tokens(es.last())
    }
}

spec fn head_inner(e: ElementView) -> Seq<char> {
    if e.children.len() == 0 {
        e.tag + attrs_markup(e.attrs) + seq!['/']
    } else {
        e.tag + attrs_markup(e.attrs)
    }
}

/// Where the markup of an element other than text starts, its first tag is found.
proof fn lemma_head_found(e: ElementView, rest: Seq<char>)
    requires
        !e.is_text(),
        tag_ok(e.tag),
        attrs_ok(e.attrs),
    ensures
        markup_view(e) + rest == seq!['<'] + head_inner(e) + seq!['>'] + (if e.children.len() == 0 {
            rest
        } else {
            markup_views(e.children) + (seq!['<', '/'] + e.tag + seq!['>'] + rest)
        }),
        find_tag(markup_view(e) + rest) == Some(
            TagMatch { start: 0, end: head_inner(e).len() + 2int, token: Some(head_token(e)) },
        ),
        tag_first(markup_view(e) + rest),
{
    let inner = head_inner(e);
    let a = attrs_markup(e.attrs);
    lemma_attrs_markup_shape(e.attrs);
    lemma_word_char(e.tag[0]);
    assert forall|j: int| 0 <= j < inner.len() implies #[trigger] inner[j] != '>' by {
        if j < e.tag.len() {
            assert(inner[j] == e.tag[j]);
            lemma_word_char(e.tag[j]);
        } else if j < e.tag.len() + a.len() {
            assert(inner[j] == a[j - e.tag.len()]);
        }
    }
    assert(inner[0] == e.tag[0]);
    let tail = if e.children.len() == 0 {
        rest
    } else {
        markup_views(e.children) + (seq!['<', '/'] + e.tag + seq!['>'] + rest)
    };
    if e.children.len() == 0 {
        assert(markup_view(e) + rest =~= seq!['<'] + inner + seq!['>'] + tail);
    } else {
        assert(markup_view(e) + rest =~= seq!['<'] + inner + seq!['>'] + tail);
    }
    lemma_find_tag_at_start(inner, tail);
    lemma_head_token(e.tag, e.attrs, e.children.len() == 0);
}

/// The closing tag of an element, found at the start of what follows its children.
proof fn lemma_close_found(tag: Seq<char>, rest: Seq<char>)
    requires
        tag_ok(tag),
    ensures
        seq!['<', '/'] + tag + seq!['>'] + rest == seq!['<'] + (seq!['/'] + tag) + seq!['>'] + rest,
        lex_spec(seq!['<', '/'] + tag + seq!['>'] + rest) == seq![TokenLikeView::Token(close_token(tag))]
            + lex_spec(rest),
        tag_first(seq!['<', '/'] + tag + seq!['>'] + rest),
{
    let inner = seq!['/'] + tag;
    assert forall|j: int| 0 <= j < inner.len() implies #[trigger] inner[j] != '>' by {
        if j > 0 {
            assert(inner[j] == tag[j - 1]);
            lemma_word_char(tag[j - 1]);
        }
    }
    let s = seq!['<', '/'] + tag + seq!['>'] + rest;
    assert(s =~= seq!['<'] + inner + seq!['>'] + rest);
    lemma_find_tag_at_start(inner, rest);
    lemma_close_token(tag);
    lemma_content_empty();
    assert(s.take(0) =~= Seq::<char>::empty());
    assert(s.skip(inner.len() + 2int) =~= rest);
    assert(Seq::<TokenLikeView>::empty() + seq![TokenLikeView::Token(close_token(tag))] + lex_spec(rest)
        =~= seq![TokenLikeView::Token(close_token(tag))] + lex_spec(rest));
}

proof fn lemma_lex_elem(e: ElementView, rest: Seq<char>)
    requires
        elem_ok(e),
        !e.is_text(),
    ensures
        lex_spec(markup_view(e) + rest) == elem_tokens(e) + lex_spec(rest),
    decreases e, 1nat,
{
    lemma_head_found(e, rest);
    let s = markup_view(e) + rest;
    let inner = head_inner(e);
    let ht = seq![TokenLikeView::Token(head_token(e))];
    lemma_content_empty();
    assert(s.take(0) =~= Seq::<char>::empty());
    if e.children.len() == 0 {
        assert(s.skip(inner.len() + 2int) =~= rest);
        assert(Seq::<TokenLikeView>::empty() + ht + lex_spec(rest) =~= ht + lex_spec(rest));
    } else {
        let c = markup_views(e.children);
        let r = seq!['<', '/'] + e.tag + seq!['>'] + rest;
        assert(s.skip(inner.len() + 2int) =~= c + r);
        lemma_close_found(e.tag, rest);
        lemma_lex_elems(e.children, r);
        let ct = seq![TokenLikeView::Token(close_token(e.tag))];
        assert(Seq::<TokenLikeView>::empty() + ht + (elems_tokens(e.children) + (ct + lex_spec(rest))) =~= ht
            + elems_tokens(e.children) + ct + lex_spec(rest));
    }
}

proof fn lemma_lex_text_elem(l: ElementView, rest: Seq<char>)
    requires
        l.is_text(),
        text_node_ok(l),
        rest.len() == 0 || tag_first(rest),
    ensures
        lex_spec(markup_view(l) + rest) == elem_tokens(l) + lex_spec(rest),
{
    let c = l.text().unwrap();
    assert(l.attrs[0].0 == content_key());
    match l.attrs[0].1 {
        AttrView::Str(x) => {
            assert(c == x);
        },
        AttrView::Bool(_) => {},
    }
    assert(markup_view(l) == escape_spec(c, false));
    lemma_escape_chars(c, false);
    lemma_lex_text_prefix(escape_spec(c, false), rest);
    lemma_unescape_escape(c, false);
    lemma_trim_clean(c);
}

proof fn lemma_lex_elems(es: Seq<ElementView>, rest: Seq<char>)
    requires
        elems_ok(es),
        es.len() > 0 && es.last().is_text() ==> rest.len() == 0 || tag_first(rest),
    ensures
        lex_spec(markup_views(es) + rest) == elems_tokens(es) + lex_spec(rest),
    decreases es, 0nat,
{
    if es.len() == 0 {
        assert(markup_views(es) + rest =~= rest);
        assert(Seq::<TokenLikeView>::empty() + lex_spec(rest) =~= lex_spec(rest));
    } else {
        let d = es.drop_last();
        let l = es.last();
        assert(elems_ok(d));
        assert(elem_ok(l));
        let r2 = markup_view(l) + rest;
        if !l.is_text() {
            assert(tag_ok(l.tag) && attrs_ok(l.attrs));
            lemma_head_found(l, rest);
        }
        if d.len() > 0 {
            assert(d.last() == es[es.len() - 2]);
        }
        lemma_lex_elems(d, r2);
        assert(markup_views(es) + rest =~= markup_views(d) + r2);
        if l.is_text() {
            lemma_lex_text_elem(l, rest);
        } else {
            lemma_lex_elem(l, rest);
        }
        assert(elems_tokens(d) + (elem_tokens(l) + lex_spec(rest)) =~= elems_tokens(d) + elem_tokens(l)
            + lex_spec(rest));
    }
}

spec fn fold_ok(st: FoldState) -> bool {
    !st.failed && !st.root_closed && st.stack.len() > 0
}

/// The stack with the elements `es` added to the innermost open tag.
spec fn add_all(stack: Seq<(TokenView, Seq<ElementView>)>, es: Seq<ElementView>) -> Seq<(TokenView, Seq<ElementView>)> {
    stack.drop_last().push((stack.last().0, stack.last().1 + es))
}

proof fn lemma_fold_concat(st: FoldState, a: Seq<TokenLikeView>, b: Seq<TokenLikeView>)
    ensures
        fold_from(st, a + b) == fold_from(fold_from(st, a), b),
    decreases a.len(),
{
    if a.len() == 0 {
        assert(a + b =~= b);
    } else {
        assert((a + b)[0] == a[0]);
        assert((a + b).drop_first() =~= a.drop_first() + b);
        lemma_fold_concat(fold_step(st, a[0]), a.drop_first(), b);
    }
}

proof fn lemma_fold_one(st: FoldState, x: TokenLikeView)
    ensures
        fold_from(st, seq![x]) == fold_step(st, x),
{
    let one = seq![x];
    assert(one.drop_first() =~= Seq::<TokenLikeView>::empty());
    assert(one[0] == x);
    assert(fold_from(fold_step(st, x), Seq::<TokenLikeView>::empty()) == fold_step(st, x));
    assert(fold_from(st, one) == fold_from(fold_step(st, one[0]), one.drop_first()));
}

proof fn lemma_fold_elem(e: ElementView, st: FoldState)
    requires
        fold_ok(st),
        elem_ok(e),
    ensures
        fold_from(st, elem_tokens(e)) == (FoldState { stack: add_to_top(st.stack, e), ..st }),
    decreases e, 1nat,
{
    if e.is_text() {
        let c = e.text().unwrap();
        assert(e.attrs[0].0 == content_key());
        match e.attrs[0].1 {
            AttrView::Str(x) => {
                assert(c == x);
            },
            AttrView::Bool(_) => {},
        }
        lemma_fold_one(st, TokenLikeView::Str(c));
        assert(e.attrs =~= seq![(content_key(), AttrView::Str(c))]);
        assert(e.children =~= Seq::<ElementView>::empty());
        assert(e == text_view(c));
    } else {
        lemma_parse_attrs_markup(e.attrs);
        let h = head_token(e);
        if e.children.len() == 0 {
            lemma_fold_one(st, TokenLikeView::Token(h));
            assert(e.children =~= Seq::<ElementView>::empty());
            assert(node_view(h, Seq::empty()) == e);
        } else {
            let ot = seq![TokenLikeView::Token(h)];
            let ct = seq![TokenLikeView::Token(close_token(e.tag))];
            let ch = elems_tokens(e.children);
            lemma_fold_concat(st, ot + ch, ct);
            lemma_fold_concat(st, ot, ch);
            lemma_fold_one(st, TokenLikeView::Token(h));
            let st1 = fold_step(st, TokenLikeView::Token(h));
            assert(st1 == (FoldState { stack: st.stack.push((h, Seq::empty())), ..st }));
            lemma_fold_elems(e.children, st1);
            let st2 = fold_from(st1, ch);
            assert(st2.stack == add_all(st1.stack, e.children));
            assert(st2.stack.last() == (h, Seq::<ElementView>::empty() + e.children));
            assert(Seq::<ElementView>::empty() + e.children =~= e.children);
            assert(st2.stack.drop_last() =~= st.stack);
            lemma_fold_one(st2, TokenLikeView::Token(close_token(e.tag)));
            assert(node_view(h, e.children) == e);
        }
    }
}

proof fn lemma_fold_elems(es: Seq<ElementView>, st: FoldState)
    requires
        fold_ok(st),
        elems_ok(es),
    ensures
        fold_from(st, elems_tokens(es)) == (FoldState { stack: add_all(st.stack, es), ..st }),
    decreases es, 0nat,
{
    if es.len() == 0 {
        assert(st.stack.last().1 + es =~= st.stack.last().1);
        assert(add_all(st.stack, es) =~= st.stack);
    } else {
        let d = es.drop_last();
        let l = es.last();
        assert(elems_ok(d));
        assert(elem_ok(l));
        lemma_fold_concat(st, elems_tokens(d), elem_tokens(l));
        lemma_fold_elems(d, st);
        let st1 = FoldState { stack: add_all(st.stack, d), ..st };
        lemma_fold_elem(l, st1);
        assert((st.stack.last().1 + d).push(l) =~= st.stack.last().1 + es);
        assert(add_to_top(add_all(st.stack, d), l) =~= add_all(st.stack, es));
    }
}

/// Markup read back: reading the markup that `dump` writes for elements that markup can
/// carry (names of letters, digits, `-` and `_`, no key twice, a true flag not named
/// `no-...`, text nodes non-empty, without whitespace at their ends and never side by
/// side) gives the same elements back, and never leaves the domain of `parse`.
pub proof fn lemma_parse_dump(es: Seq<ElementView>)
    requires
        elems_ok(es),
    ensures
        !parse_fails(markup_views(es)),
        parse_spec(markup_views(es)) == Some(es),
{
    let m = markup_views(es);
    lemma_lex_elems(es, Seq::empty());
    lemma_lex_empty();
    assert(m + Seq::<char>::empty() =~= m);
    assert(elems_tokens(es) + Seq::<TokenLikeView>::empty() =~= elems_tokens(es));
    let st0 = fold_init();
    lemma_fold_elems(es, st0);
    let stack = add_all(st0.stack, es);
    assert(Seq::<ElementView>::empty() + es =~= es);
    assert(stack =~= seq![(root_token(), es)]);
}

} // verus!
