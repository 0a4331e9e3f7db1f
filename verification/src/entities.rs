use vstd::prelude::*;

use crate::text::{
    append_chars, char_from_u32, chars_of, chars_occur_at, decimal_digit, is_decimal_digit,
    is_scalar_value, occurs_at, parse_u32, spec_parse_u32, string_of,
};

verus! {

/// How `escape` writes one character.
pub open spec fn escape_char(c: char, inline: bool) -> Seq<char> {
    if c == '&' {
        seq!['&', 'a', 'm', 'p', ';']
    } else if c == '<' {
        seq!['&', 'l', 't', ';']
    } else if c == '>' {
        seq!['&', 'g', 't', ';']
    } else if c == '"' && inline {
        seq!['&', 'q', 'u', 'o', 't', ';']
    } else {
        seq![c]
    }
}

/// `&`, `<` and `>` (and `"` where `inline`) written as character entities.
pub open spec fn escape_spec(s: Seq<char>, inline: bool) -> Seq<char>
    decreases s.len(),
{
    if s.len() == 0 {
        Seq::empty()
    } else {
        escape_spec(s.drop_last(), inline) + escape_char(s.last(), inline)
    }
}

/// Appends `escape_spec(s, inline)`.
pub(crate) fn escape_into(out: &mut Vec<char>, s: &[char], inline: bool)
    ensures
        final(out)@ == old(out)@ + escape_spec(s@, inline),
{
    let mut i: usize = 0;
    while i < s.len()
        invariant
            i <= s.len(),
            out@ == old(out)@ + escape_spec(s@.take(i as int), inline),
        decreases s.len() - i,
    {
        let c = s[i];
        if c == '&' {
            out.push('&');
            out.push('a');
            out.push('m');
            out.push('p');
            out.push(';');
        } else if c == '<' {
            out.push('&');
            out.push('l');
            out.push('t');
            out.push(';');
        } else if c == '>' {
            out.push('&');
            out.push('g');
            out.push('t');
            out.push(';');
        } else if c == '"' && inline {
            out.push('&');
            out.push('q');
            out.push('u');
            out.push('o');
            out.push('t');
            out.push(';');
        } else {
            out.push(c);
        }
        assert(s@.take(i + 1).drop_last() == s@.take(i as int));
        i = i + 1;
    }
    assert(s@.take(s.len() as int) == s@);
}

/// Writes `&`, `<` and `>` (and `"` where `inline`) as character entities.
pub fn escape(src: &str, inline: bool) -> (res: String)
    ensures
        res@ == escape_spec(src@, inline),
{
    let cs = chars_of(src);
    let mut out: Vec<char> = Vec::new();
    escape_into(&mut out, cs.as_slice(), inline);
    string_of(out.as_slice())
}

/// Every occurrence of `p` in `s`, from left to right and without overlap,
/// replaced by `r` (what `str::replace` of std does).
pub open spec fn replace_spec(s: Seq<char>, p: Seq<char>, r: Seq<char>) -> Seq<char>
    decreases s.len(),
{
    if s.len() == 0 {
        s
    } else if p.len() > 0 && occurs_at(s, 0, p) {
        r + replace_spec(s.skip(p.len() as int), p, r)
    } else {
        seq![s[0]] + replace_spec(s.drop_first(), p, r)
    }
}

/// `replace_spec` of `s`, `p` and `r`.
pub fn replace_chars(s: &[char], p: &[char], r: &[char]) -> (res: Vec<char>)
    requires
        p.len() > 0,
    ensures
        res@ == replace_spec(s@, p@, r@),
{
    let mut out: Vec<char> = Vec::new();
    let mut i: usize = 0;
    assert(s@.skip(0) == s@);
    while i < s.len()
        invariant
            i <= s.len(),
            p.len() > 0,
            out@ + replace_spec(s@.skip(i as int), p@, r@) == replace_spec(s@, p@, r@),
        decreases s.len() - i,
    {
        let ghost t = s@.skip(i as int);
        assert(occurs_at(s@, i as int, p@) == occurs_at(t, 0, p@)) by {
            if i + p.len() <= s.len() {
                assert(s@.subrange(i as int, i + p.len()) == t.subrange(0, p.len() as int));
            }
        }
        if chars_occur_at(s, i, p) {
            append_chars(&mut out, r);
            assert(t.skip(p.len() as int) == s@.skip(i + p.len()));
            i = i + p.len();
        } else {
            out.push(s[i]);
            assert(t.drop_first() == s@.skip(i + 1));
            i = i + 1;
        }
    }
    assert(s@.skip(i as int).len() == 0);
    out
}

/// The length of the longest run of characters from position `k` of `t` on
/// which `p` holds.
pub open spec fn run_len(t: Seq<char>, k: int, p: spec_fn(char) -> bool) -> nat
    decreases t.len() - k,
{
    if 0 <= k < t.len() && p(t[k]) {
        1 + run_len(t, k + 1, p)
    } else {
        0
    }
}

pub open spec fn is_lower_hex_digit(c: char) -> bool {
    ('0' <= c && c <= '9') || ('a' <= c && c <= 'f')
}

pub open spec fn lower_hex_digit_value(c: char) -> int {
    if c <= '9' {
        c as int - '0' as int
    } else {
        c as int - 'a' as int + 10
    }
}

/// The number that a string of hexadecimal digits writes in base sixteen.
pub open spec fn hex_value(s: Seq<char>) -> nat
    decreases s.len(),
{
    if s.len() == 0 {
        0
    } else {
        (hex_value(s.drop_last()) * 16 + lower_hex_digit_value(s.last())) as nat
    }
}

/// U+FFFD, the character that stands for one that cannot be read.
pub const REPLACEMENT_CHARACTER: char = '\u{fffd}';

pub open spec fn replacement_char() -> char {
    REPLACEMENT_CHARACTER
}

/// What a numeric character reference with the given code (and matched text) becomes:
/// itself for the code of `&` (38), the character with that code, or U+FFFD where
/// there is none.
pub open spec fn reference_replacement(code: u32, matched: Seq<char>) -> Seq<char> {
    if code == 38 {
        matched
    } else if is_scalar_value(code) {
        seq![code as char]
    } else {
        seq![replacement_char()]
    }
}

/// A decimal character reference `&#digits;` at the start of `t` (the digits of any
/// script): its length and what replaces it.
pub open spec fn dec_reference(t: Seq<char>) -> Option<(int, Seq<char>)> {
    let n = run_len(t, 2, digit_pred(false)) as int;
    if t.len() >= 2 && t[0] == '&' && t[1] == '#' && n >= 1 && 2 + n < t.len() && t[2 + n] == ';' {
        let code: u32 = match spec_parse_u32(t.subrange(2, 2 + n)) {
            Some(v) => v,
            None => 0xfffd,
        };
        Some((3 + n, reference_replacement(code, t.take(3 + n))))
    } else {
        None
    }
}

/// A hexadecimal character reference `&#xdigits;` at the start of `t` (lower-case
/// digits): its length and what replaces it.
pub open spec fn hex_reference(t: Seq<char>) -> Option<(int, Seq<char>)> {
    let n = run_len(t, 3, digit_pred(true)) as int;
    if t.len() >= 3 && t[0] == '&' && t[1] == '#' && t[2] == 'x' && n >= 1 && 3 + n < t.len()
        && t[3 + n] == ';' {
        let v = hex_value(t.subrange(3, 3 + n));
        let code: u32 = if v <= u32::MAX {
            v as u32
        } else {
            0xfffd
        };
        Some((4 + n, reference_replacement(code, t.take(4 + n))))
    } else {
        None
    }
}

/// `&amp;`, `&#38;` or `&#x26;` at the start of `t`: its length and `&`.
pub open spec fn amp_reference(t: Seq<char>) -> Option<(int, Seq<char>)> {
    if occurs_at(t, 0, seq!['&', 'a', 'm', 'p', ';']) || occurs_at(t, 0, seq!['&', '#', '3', '8', ';']) {
        Some((5, seq!['&']))
    } else if occurs_at(t, 0, seq!['&', '#', 'x', '2', '6', ';']) {
        Some((6, seq!['&']))
    } else {
        None
    }
}

/// Which kind of reference a pass replaces.
pub enum RefKind {
    Dec,
    Hex,
    Amp,
}

pub open spec fn reference_at(kind: RefKind, t: Seq<char>) -> Option<(int, Seq<char>)> {
    match kind {
        RefKind::Dec => dec_reference(t),
        RefKind::Hex => hex_reference(t),
        RefKind::Amp => amp_reference(t),
    }
}

/// Every reference of the given kind in `s`, from left to right and without
/// overlap, replaced.
pub open spec fn reference_pass(kind: RefKind, s: Seq<char>) -> Seq<char>
    decreases s.len(),
{
    if s.len() == 0 {
        s
    } else {
        match reference_at(kind, s) {
            Some((len, rep)) => if 0 < len <= s.len() {
                rep + reference_pass(kind, s.skip(len))
            } else {
                s
            },
            None => seq![s[0]] + reference_pass(kind, s.drop_first()),
        }
    }
}

/// The character entities of the Satori markup read back: `&lt;`, `&gt;`, `&quot;`,
/// then decimal and hexadecimal references, then `&amp;` (and `&#38;`, `&#x26;`).
pub open spec fn unescape_spec(s: Seq<char>) -> Seq<char> {
    let s1 = replace_spec(s, seq!['&', 'l', 't', ';'], seq!['<']);
    let s2 = replace_spec(s1, seq!['&', 'g', 't', ';'], seq!['>']);
    let s3 = replace_spec(s2, seq!['&', 'q', 'u', 'o', 't', ';'], seq!['"']);
    let s4 = reference_pass(RefKind::Dec, s3);
    let s5 = reference_pass(RefKind::Hex, s4);
    reference_pass(RefKind::Amp, s5)
}

proof fn lemma_run_len_bound(t: Seq<char>, k: int, p: spec_fn(char) -> bool)
    requires
        0 <= k <= t.len(),
    ensures
        k + run_len(t, k, p) <= t.len(),
        forall|j: int| k <= j < k + run_len(t, k, p) ==> p(#[trigger] t[j]),
        k + run_len(t, k, p) < t.len() ==> !p(t[k + run_len(t, k, p)]),
    decreases t.len() - k,
{
    if k < t.len() && p(t[k]) {
        lemma_run_len_bound(t, k + 1, p);
    }
}

/// The characters of the digit run of a decimal (`hex` false) or hexadecimal reference.
pub open spec fn digit_pred(hex: bool) -> spec_fn(char) -> bool {
    if hex {
        |c: char| is_lower_hex_digit(c)
    } else {
        |c: char| is_decimal_digit(c)
    }
}

fn is_run_char(c: char, hex: bool) -> (r: bool)
    ensures
        r == digit_pred(hex)(c),
{
    if hex {
        ('0' <= c && c <= '9') || ('a' <= c && c <= 'f')
    } else {
        decimal_digit(c)
    }
}

/// The length of the run of digits from `s[from..]`.
fn scan_run(s: &[char], from: usize, hex: bool) -> (n: usize)
    requires
        from <= s.len(),
    ensures
        n == run_len(s@, from as int, digit_pred(hex)),
{
    let ghost p = digit_pred(hex);
    let mut j: usize = from;
    while j < s.len() && is_run_char(s[j], hex)
        invariant
            from <= j <= s.len(),
            p == digit_pred(hex),
            run_len(s@, from as int, p) == (j - from) + run_len(s@, j as int, p),
        decreases s.len() - j,
    {
        j = j + 1;
    }
    j - from
}

proof fn lemma_run_len_skip(s: Seq<char>, i: int, k: int, p: spec_fn(char) -> bool)
    requires
        0 <= i <= s.len(),
        0 <= k,
    ensures
        run_len(s.skip(i), k, p) == run_len(s, i + k, p),
    decreases s.len() - i - k,
{
    if 0 <= k < s.len() - i && p(s[i + k]) {
        lemma_run_len_skip(s, i, k + 1, p);
    }
}

proof fn lemma_hex_value_prefix_le(s: Seq<char>, k: int)
    requires
        0 <= k <= s.len(),
        forall|j: int| 0 <= j < s.len() ==> is_lower_hex_digit(#[trigger] s[j]),
    ensures
        hex_value(s.take(k)) <= hex_value(s),
    decreases s.len() - k,
{
    if k < s.len() {
        assert(s.take(k + 1).drop_last() == s.take(k));
        lemma_hex_value_prefix_le(s, k + 1);
        assert(is_lower_hex_digit(s[k]));
    } else {
        assert(s.take(k) == s);
    }
}

/// The value of the lower-case hexadecimal digits `s`, when it is at most `u32::MAX`.
fn read_hex(s: &[char]) -> (r: Option<u32>)
    requires
        forall|j: int| 0 <= j < s.len() ==> is_lower_hex_digit(#[trigger] s@[j]),
    ensures
        r matches Some(v) ==> v == hex_value(s@),
        r is None ==> hex_value(s@) > u32::MAX,
{
    let mut acc: u64 = 0;
    let mut i: usize = 0;
    while i < s.len()
        invariant
            i <= s.len(),
            forall|j: int| 0 <= j < s.len() ==> is_lower_hex_digit(#[trigger] s@[j]),
            acc == hex_value(s@.take(i as int)),
            acc <= u32::MAX,
        decreases s.len() - i,
    {
        let c = s[i];
        let d: u64 = if c <= '9' {
            (c as u32 - '0' as u32) as u64
        } else {
            (c as u32 - 'a' as u32 + 10) as u64
        };
        assert(s@.take(i + 1).drop_last() == s@.take(i as int));
        let next = acc * 16 + d;
        if next > 0xffff_ffffu64 {
            proof {
                lemma_hex_value_prefix_le(s@, i + 1);
            }
            return None;
        }
        acc = next;
        i = i + 1;
    }
    assert(s@.take(s.len() as int) == s@);
    Some(acc as u32)
}

/// What replaces a numeric reference with the given code and matched text.
fn replacement_of(code: u32, matched: &[char]) -> (r: Vec<char>)
    ensures
        r@ == reference_replacement(code, matched@),
{
    let mut r: Vec<char> = Vec::new();
    if code == 38 {
        append_chars(&mut r, matched);
    } else {
        match char_from_u32(code) {
            Some(c) => r.push(c),
            None => r.push(REPLACEMENT_CHARACTER),
        }
    }
    r
}

/// `reference_at(kind, s@.skip(i))`.
fn reference_at_exec(kind: &RefKind, s: &[char], i: usize) -> (r: Option<(usize, Vec<char>)>)
    requires
        i < s.len(),
    ensures
        match (r, reference_at(*kind, s@.skip(i as int))) {
            (Some((len, rep)), Some((slen, srep))) => len == slen && rep@ == srep && 0 < len
                <= s.len() - i,
            (None, None) => true,
            _ => false,
        },
{
    let ghost t = s@.skip(i as int);
    match kind {
        RefKind::Dec => {
            if s.len() - i < 2 || s[i] != '&' || s[i + 1] != '#' {
                return None;
            }
            let n = scan_run(s, i + 2, false);
            proof {
                lemma_run_len_skip(s@, i as int, 2, digit_pred(false));
                lemma_run_len_bound(s@, i + 2, digit_pred(false));
            }
            if n == 0 || i + 2 + n >= s.len() || s[i + 2 + n] != ';' {
                return None;
            }
            let digits = &s[i + 2..i + 2 + n];
            assert(digits@ == t.subrange(2, 2 + n));
            let code: u32 = match parse_u32(digits) {
                Some(v) => v,
                None => 0xfffd,
            };
            let matched = &s[i..i + 3 + n];
            assert(matched@ == t.take(3 + n));
            Some((3 + n, replacement_of(code, matched)))
        },
        RefKind::Hex => {
            if s.len() - i < 3 || s[i] != '&' || s[i + 1] != '#' || s[i + 2] != 'x' {
                return None;
            }
            let n = scan_run(s, i + 3, true);
            proof {
                lemma_run_len_skip(s@, i as int, 3, digit_pred(true));
                lemma_run_len_bound(s@, i + 3, digit_pred(true));
            }
            if n == 0 || i + 3 + n >= s.len() || s[i + 3 + n] != ';' {
                return None;
            }
            let digits = &s[i + 3..i + 3 + n];
            assert(digits@ == t.subrange(3, 3 + n));
            assert forall|j: int| 0 <= j < digits@.len() implies is_lower_hex_digit(
                #[trigger] digits@[j],
            ) by {
                assert(digits@[j] == s@[i + 3 + j]);
            }
            let code: u32 = match read_hex(digits) {
                Some(v) => v,
                None => 0xfffd,
            };
            let matched = &s[i..i + 4 + n];
            assert(matched@ == t.take(4 + n));
            Some((4 + n, replacement_of(code, matched)))
        },
        RefKind::Amp => {
            let amp = ['&', 'a', 'm', 'p', ';'];
            let dec = ['&', '#', '3', '8', ';'];
            let hex = ['&', '#', 'x', '2', '6', ';'];
            proof {
                assert(amp@ == seq!['&', 'a', 'm', 'p', ';']);
                assert(dec@ == seq!['&', '#', '3', '8', ';']);
                assert(hex@ == seq!['&', '#', 'x', '2', '6', ';']);
                assert forall|pp: Seq<char>| occurs_at(s@, i as int, pp) == occurs_at(t, 0, pp) by {
                    if i + pp.len() <= s.len() {
                        assert(s@.subrange(i as int, i + pp.len()) == t.subrange(0, pp.len() as int));
                    }
                }
            }
            let mut r: Vec<char> = Vec::new();
            r.push('&');
            if chars_occur_at(s, i, &amp) || chars_occur_at(s, i, &dec) {
                Some((5, r))
            } else if chars_occur_at(s, i, &hex) {
                Some((6, r))
            } else {
                None
            }
        },
    }
}

/// `reference_pass(kind, s)`.
fn reference_pass_exec(kind: RefKind, s: &[char]) -> (res: Vec<char>)
    ensures
        res@ == reference_pass(kind, s@),
{
    let mut out: Vec<char> = Vec::new();
    let mut i: usize = 0;
    assert(s@.skip(0) == s@);
    while i < s.len()
        invariant
            i <= s.len(),
            out@ + reference_pass(kind, s@.skip(i as int)) == reference_pass(kind, s@),
        decreases s.len() - i,
    {
        let ghost t = s@.skip(i as int);
        match reference_at_exec(&kind, s, i) {
            Some((len, rep)) => {
                append_chars(&mut out, rep.as_slice());
                assert(t.skip(len as int) == s@.skip(i + len));
                i = i + len;
            },
            None => {
                out.push(s[i]);
                assert(t.drop_first() == s@.skip(i + 1));
                i = i + 1;
            },
        }
    }
    assert(s@.skip(i as int).len() == 0);
    out
}

/// Reads the character entities of the Satori markup back into characters.
pub fn unescape(src: &str) -> (res: String)
    ensures
        res@ == unescape_spec(src@),
{
    let cs = chars_of(src);
    let lt = ['&', 'l', 't', ';'];
    let gt = ['&', 'g', 't', ';'];
    let quot = ['&', 'q', 'u', 'o', 't', ';'];
    assert(lt@ == seq!['&', 'l', 't', ';']);
    assert(gt@ == seq!['&', 'g', 't', ';']);
    assert(quot@ == seq!['&', 'q', 'u', 'o', 't', ';']);
    let lt_c = ['<'];
    let gt_c = ['>'];
    let quot_c = ['"'];
    assert(lt_c@ == seq!['<']);
    assert(gt_c@ == seq!['>']);
    assert(quot_c@ == seq!['"']);
    let s1 = replace_chars(cs.as_slice(), &lt, &lt_c);
    let s2 = replace_chars(s1.as_slice(), &gt, &gt_c);
    let s3 = replace_chars(s2.as_slice(), &quot, &quot_c);
    let s4 = reference_pass_exec(RefKind::Dec, s3.as_slice());
    let s5 = reference_pass_exec(RefKind::Hex, s4.as_slice());
    let s6 = reference_pass_exec(RefKind::Amp, s5.as_slice());
    string_of(s6.as_slice())
}


/// How a character stands after `escape` and the first `k` passes of `unescape`.
pub open spec fn stage_token(c: char, inline: bool, k: nat) -> Seq<char> {
    if k == 0 {
        escape_char(c, inline)
    } else if k == 1 {
        if c == '<' { seq![c] } else { escape_char(c, inline) }
    } else if k == 2 {
        if c == '<' || c == '>' { seq![c] } else { escape_char(c, inline) }
    } else if k == 3 {
        if c == '&' { seq!['&', 'a', 'm', 'p', ';'] } else { seq![c] }
    } else {
        seq![c]
    }
}

/// The whole string after `escape` and the first `k` passes of `unescape`.
pub open spec fn stage(s: Seq<char>, inline: bool, k: nat) -> Seq<char>
    decreases s.len(),
{
    if s.len() == 0 {
        Seq::empty()
    } else {
        stage_token(s[0], inline, k) + stage(s.drop_first(), inline, k)
    }
}

proof fn lemma_stage_push(s: Seq<char>, c: char, inline: bool, k: nat)
    ensures
        stage(s.push(c), inline, k) == stage(s, inline, k) + stage_token(c, inline, k),
    decreases s.len(),
{
    let tok = stage_token(c, inline, k);
    if s.len() == 0 {
        assert(s.push(c).drop_first() == Seq::<char>::empty());
        assert(stage(Seq::<char>::empty(), inline, k) == Seq::<char>::empty());
        assert(stage(s.push(c), inline, k) == tok + Seq::<char>::empty());
        assert(tok + Seq::<char>::empty() == tok);
    } else {
        assert(s.push(c).drop_first() == s.drop_first().push(c));
        lemma_stage_push(s.drop_first(), c, inline, k);
        let h = stage_token(s[0], inline, k);
        assert(stage(s.push(c), inline, k) == h + stage(s.drop_first().push(c), inline, k));
        assert(h + (stage(s.drop_first(), inline, k) + tok) == (h + stage(s.drop_first(), inline, k)) + tok);
    }
}

proof fn lemma_escape_is_stage0(s: Seq<char>, inline: bool)
    ensures
        escape_spec(s, inline) == stage(s, inline, 0),
    decreases s.len(),
{
    if s.len() > 0 {
        lemma_escape_is_stage0(s.drop_last(), inline);
        lemma_stage_push(s.drop_last(), s.last(), inline, 0);
        assert(s.drop_last().push(s.last()) == s);
    }
}

proof fn lemma_stage_final(s: Seq<char>, inline: bool)
    ensures
        stage(s, inline, 4) == s,
    decreases s.len(),
{
    if s.len() > 0 {
        lemma_stage_final(s.drop_first(), inline);
        assert(seq![s[0]] + s.drop_first() == s);
    }
}

pub open spec fn no_amp(u: Seq<char>) -> bool {
    forall|i: int| 0 <= i < u.len() ==> u[i] != '&'
}

proof fn lemma_replace_no_amp(u: Seq<char>, w: Seq<char>, p: Seq<char>, r: Seq<char>)
    requires
        no_amp(u),
        p.len() > 0,
        p[0] == '&',
    ensures
        replace_spec(u + w, p, r) == u + replace_spec(w, p, r),
    decreases u.len(),
{
    if u.len() > 0 {
        let t = u + w;
        assert(t[0] == u[0]);
        assert(!occurs_at(t, 0, p)) by {
            if occurs_at(t, 0, p) {
                assert(t.subrange(0, p.len() as int)[0] == p[0]);
            }
        }
        assert(t.drop_first() == u.drop_first() + w);
        lemma_replace_no_amp(u.drop_first(), w, p, r);
        assert(seq![u[0]] + (u.drop_first() + w) == t);
        assert(seq![u[0]] + u.drop_first() == u);
    }
}

proof fn lemma_reference_needs_amp(kind: RefKind, t: Seq<char>)
    requires
        t.len() > 0,
        t[0] != '&',
    ensures
        reference_at(kind, t) is None,
{
    match kind {
        RefKind::Amp => {
            assert(!occurs_at(t, 0, seq!['&', 'a', 'm', 'p', ';'])) by {
                if occurs_at(t, 0, seq!['&', 'a', 'm', 'p', ';']) {
                    assert(t.subrange(0, 5)[0] == t[0]);
                }
            }
            assert(!occurs_at(t, 0, seq!['&', '#', '3', '8', ';'])) by {
                if occurs_at(t, 0, seq!['&', '#', '3', '8', ';']) {
                    assert(t.subrange(0, 5)[0] == t[0]);
                }
            }
            assert(!occurs_at(t, 0, seq!['&', '#', 'x', '2', '6', ';'])) by {
                if occurs_at(t, 0, seq!['&', '#', 'x', '2', '6', ';']) {
                    assert(t.subrange(0, 6)[0] == t[0]);
                }
            }
        },
        _ => {},
    }
}

proof fn lemma_pass_no_amp(kind: RefKind, u: Seq<char>, w: Seq<char>)
    requires
        no_amp(u),
    ensures
        reference_pass(kind, u + w) == u + reference_pass(kind, w),
    decreases u.len(),
{
    if u.len() > 0 {
        let t = u + w;
        assert(t[0] == u[0]);
        lemma_reference_needs_amp(kind, t);
        assert(t.drop_first() == u.drop_first() + w);
        lemma_pass_no_amp(kind, u.drop_first(), w);
        assert(seq![u[0]] + u.drop_first() == u);
    }
}

/// The pattern and the replacement of the `k`-th `str::replace` pass of `unescape`.
pub open spec fn stage_pattern(k: nat) -> Seq<char> {
    if k == 0 {
        seq!['&', 'l', 't', ';']
    } else if k == 1 {
        seq!['&', 'g', 't', ';']
    } else {
        seq!['&', 'q', 'u', 'o', 't', ';']
    }
}

pub open spec fn stage_replacement(k: nat) -> Seq<char> {
    if k == 0 {
        seq!['<']
    } else if k == 1 {
        seq!['>']
    } else {
        seq!['"']
    }
}

proof fn lemma_replace_stage(s: Seq<char>, inline: bool, k: nat)
    requires
        k < 3,
    ensures
        replace_spec(stage(s, inline, k), stage_pattern(k), stage_replacement(k)) == stage(
            s,
            inline,
            k + 1,
        ),
    decreases s.len(),
{
    if s.len() > 0 {
        let c = s[0];
        let tok = stage_token(c, inline, k);
        let rest = stage(s.drop_first(), inline, k);
        let p = stage_pattern(k);
        let r = stage_replacement(k);
        let t = tok + rest;
        lemma_replace_stage(s.drop_first(), inline, k);
        if tok == p {
            assert(occurs_at(t, 0, p)) by {
                assert(t.subrange(0, p.len() as int) == tok);
            }
            assert(t.skip(p.len() as int) == rest);
            assert(stage_token(c, inline, k + 1) == r);
        } else if tok.len() == 1 {
            assert(tok == seq![c]);
            assert(c != '&');
            assert(stage_token(c, inline, k + 1) == tok);
            lemma_replace_no_amp(tok, rest, p, r);
        } else {
            assert(tok[0] == '&');
            assert(tok[1] != p[1]);
            assert(!occurs_at(t, 0, p)) by {
                if occurs_at(t, 0, p) {
                    assert(t.subrange(0, p.len() as int)[1] == t[1]);
                }
            }
            assert(t.drop_first() == tok.drop_first() + rest);
            lemma_replace_no_amp(tok.drop_first(), rest, p, r);
            assert(stage_token(c, inline, k + 1) == tok);
            assert(seq![tok[0]] + tok.drop_first() == tok);
        }
    }
}

proof fn lemma_reference_pass_stage(kind: RefKind, s: Seq<char>, inline: bool)
    ensures
        reference_pass(kind, stage(s, inline, 3)) == (match kind {
            RefKind::Amp => stage(s, inline, 4),
            _ => stage(s, inline, 3),
        }),
    decreases s.len(),
{
    if s.len() > 0 {
        let c = s[0];
        let tok = stage_token(c, inline, 3);
        let rest = stage(s.drop_first(), inline, 3);
        let t = tok + rest;
        lemma_reference_pass_stage(kind, s.drop_first(), inline);
        if c == '&' {
            assert(t[0] == '&' && t[1] == 'a');
            match kind {
                RefKind::Amp => {
                    assert(occurs_at(t, 0, seq!['&', 'a', 'm', 'p', ';'])) by {
                        assert(t.subrange(0, 5) == tok);
                    }
                    assert(t.skip(5) == rest);
                },
                _ => {
                    assert(reference_at(kind, t) is None);
                    assert(t.drop_first() == tok.drop_first() + rest);
                    lemma_pass_no_amp(kind, tok.drop_first(), rest);
                    assert(seq![tok[0]] + tok.drop_first() == tok);
                },
            }
        } else {
            lemma_pass_no_amp(kind, tok, rest);
        }
    }
}

/// `unescape` reads back exactly what `escape` wrote, for every string and
/// either setting of `inline`.
pub proof fn lemma_unescape_escape(s: Seq<char>, inline: bool)
    ensures
        unescape_spec(escape_spec(s, inline)) == s,
{
    lemma_escape_is_stage0(s, inline);
    lemma_replace_stage(s, inline, 0);
    lemma_replace_stage(s, inline, 1);
    lemma_replace_stage(s, inline, 2);
    lemma_reference_pass_stage(RefKind::Dec, s, inline);
    lemma_reference_pass_stage(RefKind::Hex, s, inline);
    lemma_reference_pass_stage(RefKind::Amp, s, inline);
    lemma_stage_final(s, inline);
}

} // verus!
