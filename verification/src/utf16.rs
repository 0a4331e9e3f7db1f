use vstd::prelude::*;

use crate::entities::replacement_char;
use crate::text::{char_from_u32, chars_of};

verus! {

/// The UTF-16 code units of one character.
pub open spec fn char_utf16(c: char) -> Seq<u16> {
    let u = c as u32;
    if u < 0x10000 {
        seq![u as u16]
    } else {
        let v = (u - 0x10000) as u32;
        seq![(0xd800 + (v >> 10)) as u16, (0xdc00 + (v & 0x3ff)) as u16]
    }
}

/// The UTF-16 code units of a string (`str::encode_utf16`).
pub open spec fn encode_utf16(s: Seq<char>) -> Seq<u16>
    decreases s.len(),
{
    if s.len() == 0 {
        Seq::empty()
    } else {
        encode_utf16(s.drop_last()) + char_utf16(s.last())
    }
}

pub open spec fn is_lead_surrogate(u: u16) -> bool {
    0xd800 <= u && u <= 0xdbff
}

pub open spec fn is_trail_surrogate(u: u16) -> bool {
    0xdc00 <= u && u <= 0xdfff
}

/// The character of a surrogate pair.
pub open spec fn pair_char(hi: u16, lo: u16) -> char {
    (0x10000 + ((hi - 0xd800) as u32) * 0x400 + (lo - 0xdc00) as u32) as char
}

/// UTF-16 code units read as characters, each unpaired surrogate read as U+FFFD
/// (`String::from_utf16_lossy`).
pub open spec fn utf16_lossy(us: Seq<u16>) -> Seq<char>
    decreases us.len(),
{
    if us.len() == 0 {
        Seq::empty()
    } else {
        let u = us[0];
        if !(0xd800 <= u && u <= 0xdfff) {
            seq![u as char] + utf16_lossy(us.drop_first())
        } else if is_lead_surrogate(u) && us.len() >= 2 && is_trail_surrogate(us[1]) {
            seq![pair_char(u, us[1])] + utf16_lossy(us.skip(2))
        } else {
            seq![replacement_char()] + utf16_lossy(us.drop_first())
        }
    }
}

/// The UTF-16 code units of a string.
pub fn to_utf16(s: &str) -> (r: Vec<u16>)
    ensures
        r@ == encode_utf16(s@),
{
    let cs = chars_of(s);
    let mut r: Vec<u16> = Vec::new();
    let mut i: usize = 0;
    while i < cs.len()
        invariant
            i <= cs.len(),
            cs@ == s@,
            r@ == encode_utf16(cs@.take(i as int)),
        decreases cs.len() - i,
    {
        let c = cs[i];
        let u = c as u32;
        let ghost before = r@;
        if u < 0x10000 {
            r.push(u as u16);
        } else {
            proof {
                vstd::utf8::char_is_scalar(c);
            }
            assert(u <= 0x10ffff);
            let v: u32 = u - 0x10000;
            assert(v >> 10 < 0x400 && v & 0x3ff < 0x400) by (bit_vector)
                requires
                    v < 0x100000,
            ;
            let hi: u32 = 0xd800u32 + (v >> 10);
            let lo: u32 = 0xdc00u32 + (v & 0x3ff);
            r.push(hi as u16);
            r.push(lo as u16);
        }
        assert(r@ == before + char_utf16(c));
        assert(cs@.take(i + 1).drop_last() == cs@.take(i as int));
        i = i + 1;
    }
    assert(cs@.take(cs.len() as int) == cs@);
    r
}

/// UTF-16 code units read as characters, unpaired surrogates as U+FFFD.
pub fn from_utf16_lossy(us: &[u16]) -> (r: Vec<char>)
    ensures
        r@ == utf16_lossy(us@),
{
    let mut r: Vec<char> = Vec::new();
    let mut i: usize = 0;
    assert(us@.skip(0) == us@);
    while i < us.len()
        invariant
            i <= us.len(),
            r@ + utf16_lossy(us@.skip(i as int)) == utf16_lossy(us@),
        decreases us.len() - i,
    {
        let ghost t = us@.skip(i as int);
        let u = us[i];
        assert(t[0] == u);
        if !(0xd800 <= u && u <= 0xdfff) {
            let c = match char_from_u32(u as u32) {
                Some(c) => c,
                None => '\u{fffd}',
            };
            r.push(c);
            assert(t.drop_first() == us@.skip(i + 1));
            i = i + 1;
        } else if u <= 0xdbff && i + 1 < us.len() && 0xdc00 <= us[i + 1] && us[i + 1] <= 0xdfff {
            let lo = us[i + 1];
            assert(t[1] == lo);
            let code: u32 = 0x10000 + ((u - 0xd800) as u32) * 0x400 + (lo - 0xdc00) as u32;
            let c = match char_from_u32(code) {
                Some(c) => c,
                None => '\u{fffd}',
            };
            r.push(c);
            assert(t.skip(2) == us@.skip(i + 2));
            i = i + 2;
        } else {
            r.push(crate::entities::REPLACEMENT_CHARACTER);
            assert(t.drop_first() == us@.skip(i + 1));
            i = i + 1;
        }
    }
    assert(us@.skip(i as int).len() == 0);
    r
}


proof fn lemma_encode_first(s: Seq<char>)
    requires
        s.len() > 0,
    ensures
        encode_utf16(s) == char_utf16(s[0]) + encode_utf16(s.drop_first()),
    decreases s.len(),
{
    if s.len() == 1 {
        assert(s.drop_last() =~= Seq::<char>::empty());
        assert(s.drop_first() =~= Seq::<char>::empty());
        assert(s.last() == s[0]);
        assert(encode_utf16(Seq::<char>::empty()) =~= Seq::<u16>::empty());
        assert(encode_utf16(s.drop_last()) =~= Seq::<u16>::empty());
        assert(encode_utf16(s) =~= char_utf16(s[0]));
        assert(char_utf16(s[0]) + Seq::<u16>::empty() =~= char_utf16(s[0]));
    } else {
        let d = s.drop_last();
        lemma_encode_first(d);
        assert(d[0] == s[0]);
        assert(d.drop_first() =~= s.drop_first().drop_last());
        assert(s.drop_first().last() == s.last());
        assert(encode_utf16(s) =~= char_utf16(s[0]) + encode_utf16(s.drop_first()));
    }
}

proof fn lemma_char_round_trip(c: char, rest: Seq<u16>)
    ensures
        utf16_lossy(char_utf16(c) + rest) == seq![c] + utf16_lossy(rest),
{
    vstd::utf8::char_is_scalar(c);
    let u = c as u32;
    let us = char_utf16(c) + rest;
    if u < 0x10000 {
        assert(us[0] == u as u16);
        assert(us.drop_first() =~= rest);
        assert((u as u16) as u32 == u);
        assert((u as u16) as char == c);
    } else {
        let v = (u - 0x10000) as u32;
        let hi = (0xd800 + (v >> 10)) as u16;
        let lo = (0xdc00 + (v & 0x3ff)) as u16;
        assert(v >> 10 < 0x400 && v & 0x3ff < 0x400 && (v >> 10) * 0x400 + (v & 0x3ff) == v) by (bit_vector)
            requires
                v < 0x100000,
        ;
        assert(us[0] == hi && us[1] == lo);
        assert(us.skip(2) =~= rest);
        assert(pair_char(hi, lo) == c);
    }
}

/// Encoding text in UTF-16 and reading it back gives the text: a valid encoding has no
/// unpaired surrogate.
pub proof fn lemma_utf16_round_trip(s: Seq<char>)
    ensures
        utf16_lossy(encode_utf16(s)) == s,
    decreases s.len(),
{
    if s.len() > 0 {
        lemma_encode_first(s);
        lemma_char_round_trip(s[0], encode_utf16(s.drop_first()));
        lemma_utf16_round_trip(s.drop_first());
        assert(seq![s[0]] + s.drop_first() =~= s);
    }
}

/// A text without line breaks has no line-feed unit in UTF-16, and at least as many
/// units as characters.
pub(crate) proof fn lemma_utf16_no_line_feed(s: Seq<char>)
    requires
        forall|i: int| 0 <= i < s.len() ==> s[i] as u32 != 10,
    ensures
        forall|j: int| 0 <= j < encode_utf16(s).len() ==> encode_utf16(s)[j] != 10,
        encode_utf16(s).len() >= s.len(),
    decreases s.len(),
{
    if s.len() > 0 {
        let d = s.drop_last();
        assert forall|i: int| 0 <= i < d.len() implies d[i] as u32 != 10 by {
            assert(d[i] == s[i]);
        }
        lemma_utf16_no_line_feed(d);
        let c = s.last();
        assert(c == s[s.len() - 1]);
        vstd::utf8::char_is_scalar(c);
        let u = c as u32;
        let cu = char_utf16(c);
        if u < 0x10000 {
            assert(cu[0] == u as u16);
            assert((u as u16) as u32 == u);
        } else {
            let v = (u - 0x10000) as u32;
            assert(v < 0x100000);
            assert(((0xd800 + (v >> 10)) as u16) != 10u16 && ((0xdc00 + (v & 0x3ff)) as u16) != 10u16) by (bit_vector)
                requires
                    v < 0x100000u32,
            ;
        }
        let e = encode_utf16(d) + cu;
        assert(encode_utf16(s) == e);
        assert forall|j: int| 0 <= j < e.len() implies e[j] != 10 by {
            if j < encode_utf16(d).len() {
                assert(e[j] == encode_utf16(d)[j]);
            } else {
                assert(e[j] == cu[j - encode_utf16(d).len()]);
            }
        }
    }
}

pub(crate) proof fn lemma_encode_concat(a: Seq<char>, b: Seq<char>)
    ensures
        encode_utf16(a + b) == encode_utf16(a) + encode_utf16(b),
    decreases b.len(),
{
    if b.len() == 0 {
        assert(a + b =~= a);
        assert(encode_utf16(a) + Seq::<u16>::empty() =~= encode_utf16(a));
    } else {
        lemma_encode_concat(a, b.drop_last());
        assert((a + b).drop_last() =~= a + b.drop_last());
        assert((a + b).last() == b.last());
        assert(encode_utf16(a) + encode_utf16(b.drop_last()) + char_utf16(b.last()) =~= encode_utf16(a) + (
        encode_utf16(b.drop_last()) + char_utf16(b.last())));
    }
}

} // verus!
