use vstd::prelude::*;

verus! {

/// Appends one character to a string (`String::push` of std).
#[verifier::external_body]
pub(crate) fn push_char(s: &mut String, c: char)
    ensures
        final(s)@ == old(s)@.push(c),
{
    s.push(c);
}

/// The code points that name a `char`.
pub open spec fn is_scalar_value(code: u32) -> bool {
    code < 0xd800 || (0xe000 <= code && code <= 0x10ffff)
}

/// `char::from_u32` of std: the character with the given code point, if there is one.
#[verifier::external_body]
pub(crate) fn char_from_u32(code: u32) -> (r: Option<char>)
    ensures
        r is Some <==> is_scalar_value(code),
        r matches Some(c) ==> c as u32 == code && c == code as char,
{
    char::from_u32(code)
}

/// The characters of a string slice, in order.
pub fn chars_of(s: &str) -> (res: Vec<char>)
    ensures
        res@ == s@,
{
    let mut res: Vec<char> = Vec::new();
    for c in it: s.chars()
        invariant
            res@ == it.seq().take(it.index() as int),
    {
        res.push(c);
    }
    res
}

/// A string holding the given characters.
pub fn string_of(cs: &[char]) -> (res: String)
    ensures
        res@ == cs@,
{
    let mut res = String::new();
    let mut i: usize = 0;
    while i < cs.len()
        invariant
            i <= cs.len(),
            res@ == cs@.take(i as int),
        decreases cs.len() - i,
    {
        push_char(&mut res, cs[i]);
        assert(cs@.take(i + 1) == cs@.take(i as int).push(cs@[i as int]));
        i = i + 1;
    }
    assert(cs@.take(cs.len() as int) == cs@);
    res
}

/// Appends the given characters to a string.
pub fn push_chars(s: &mut String, cs: &[char])
    ensures
        final(s)@ == old(s)@ + cs@,
{
    let mut i: usize = 0;
    while i < cs.len()
        invariant
            i <= cs.len(),
            s@ == old(s)@ + cs@.take(i as int),
        decreases cs.len() - i,
    {
        push_char(s, cs[i]);
        assert(cs@.take(i + 1) == cs@.take(i as int).push(cs@[i as int]));
        i = i + 1;
    }
    assert(cs@.take(cs.len() as int) == cs@);
}

/// Appends a string slice to a string.
pub fn push_str(s: &mut String, t: &str)
    ensures
        final(s)@ == old(s)@ + t@,
{
    let cs = chars_of(t);
    push_chars(s, cs.as_slice());
}

/// Appends the given characters to `out`.
pub fn append_chars(out: &mut Vec<char>, s: &[char])
    ensures
        final(out)@ == old(out)@ + s@,
{
    let mut i: usize = 0;
    while i < s.len()
        invariant
            i <= s.len(),
            out@ == old(out)@ + s@.take(i as int),
        decreases s.len() - i,
    {
        out.push(s[i]);
        assert(s@.take(i + 1) == s@.take(i as int).push(s@[i as int]));
        i = i + 1;
    }
    assert(s@.take(s.len() as int) == s@);
}

/// Appends the characters of a string slice to `out`.
pub fn append_str(out: &mut Vec<char>, s: &str)
    ensures
        final(out)@ == old(out)@ + s@,
{
    let cs = chars_of(s);
    append_chars(out, cs.as_slice());
}

/// Whether two character sequences are equal.
pub fn chars_eq(a: &[char], b: &[char]) -> (r: bool)
    ensures
        r == (a@ == b@),
{
    if a.len() != b.len() {
        return false;
    }
    let mut i: usize = 0;
    while i < a.len()
        invariant
            a.len() == b.len(),
            i <= a.len(),
            forall|j: int| 0 <= j < i ==> a@[j] == b@[j],
        decreases a.len() - i,
    {
        if a[i] != b[i] {
            return false;
        }
        i = i + 1;
    }
    assert(a@ =~= b@);
    true
}

/// Whether two string slices are equal.
pub fn str_eq(a: &str, b: &str) -> (r: bool)
    ensures
        r == (a@ == b@),
{
    let ca = chars_of(a);
    let cb = chars_of(b);
    chars_eq(ca.as_slice(), cb.as_slice())
}

/// Whether `s` holds `p` at position `at`.
pub open spec fn occurs_at(s: Seq<char>, at: int, p: Seq<char>) -> bool {
    0 <= at && at + p.len() <= s.len() && s.subrange(at, at + p.len() as int) == p
}

/// Whether `s`, from position `at`, begins with `p`.
pub fn chars_occur_at(s: &[char], at: usize, p: &[char]) -> (r: bool)
    ensures
        r == occurs_at(s@, at as int, p@),
{
    if at > s.len() || p.len() > s.len() - at {
        return false;
    }
    let mut i: usize = 0;
    while i < p.len()
        invariant
            at + p.len() <= s.len(),
            i <= p.len(),
            forall|j: int| 0 <= j < i ==> s@[at + j] == p@[j],
        decreases p.len() - i,
    {
        if s[at + i] != p[i] {
            return false;
        }
        i = i + 1;
    }
    assert(s@.subrange(at as int, at + p.len() as int) =~= p@);
    true
}

/// Whitespace as Unicode's `White_Space` property defines it.
pub open spec fn is_space(c: char) -> bool {
    let u = c as u32;
    ||| (0x9 <= u && u <= 0xd)
    ||| u == 0x20
    ||| u == 0x85
    ||| u == 0xa0
    ||| u == 0x1680
    ||| (0x2000 <= u && u <= 0x200a)
    ||| (0x2028 <= u && u <= 0x2029)
    ||| u == 0x202f
    ||| u == 0x205f
    ||| u == 0x3000
}

/// Whether a character is whitespace (Unicode `White_Space`).
pub fn space(c: char) -> (r: bool)
    ensures
        r == is_space(c),
{
    let u = c as u32;
    (0x9 <= u && u <= 0xd) || u == 0x20 || u == 0x85 || u == 0xa0 || u == 0x1680 || (0x2000 <= u
        && u <= 0x200a) || (0x2028 <= u && u <= 0x2029) || u == 0x202f || u == 0x205f || u
        == 0x3000
}

/// Decimal digits as Unicode's general category `Nd` defines them.
pub open spec fn is_decimal_digit(c: char) -> bool {
    let u = c as u32;
        ||| (0x30 <= u && u <= 0x39)
        ||| (0x660 <= u && u <= 0x669)
        ||| (0x6f0 <= u && u <= 0x6f9)
        ||| (0x7c0 <= u && u <= 0x7c9)
        ||| (0x966 <= u && u <= 0x96f)
        ||| (0x9e6 <= u && u <= 0x9ef)
        ||| (0xa66 <= u && u <= 0xa6f)
        ||| (0xae6 <= u && u <= 0xaef)
        ||| (0xb66 <= u && u <= 0xb6f)
        ||| (0xbe6 <= u && u <= 0xbef)
        ||| (0xc66 <= u && u <= 0xc6f)
        ||| (0xce6 <= u && u <= 0xcef)
        ||| (0xd66 <= u && u <= 0xd6f)
        ||| (0xde6 <= u && u <= 0xdef)
        ||| (0xe50 <= u && u <= 0xe59)
        ||| (0xed0 <= u && u <= 0xed9)
        ||| (0xf20 <= u && u <= 0xf29)
        ||| (0x1040 <= u && u <= 0x1049)
        ||| (0x1090 <= u && u <= 0x1099)
        ||| (0x17e0 <= u && u <= 0x17e9)
        ||| (0x1810 <= u && u <= 0x1819)
        ||| (0x1946 <= u && u <= 0x194f)
        ||| (0x19d0 <= u && u <= 0x19d9)
        ||| (0x1a80 <= u && u <= 0x1a89)
        ||| (0x1a90 <= u && u <= 0x1a99)
        ||| (0x1b50 <= u && u <= 0x1b59)
        ||| (0x1bb0 <= u && u <= 0x1bb9)
        ||| (0x1c40 <= u && u <= 0x1c49)
        ||| (0x1c50 <= u && u <= 0x1c59)
        ||| (0xa620 <= u && u <= 0xa629)
        ||| (0xa8d0 <= u && u <= 0xa8d9)
        ||| (0xa900 <= u && u <= 0xa909)
        ||| (0xa9d0 <= u && u <= 0xa9d9)
        ||| (0xa9f0 <= u && u <= 0xa9f9)
        ||| (0xaa50 <= u && u <= 0xaa59)
        ||| (0xabf0 <= u && u <= 0xabf9)
        ||| (0xff10 <= u && u <= 0xff19)
        ||| (0x104a0 <= u && u <= 0x104a9)
        ||| (0x10d30 <= u && u <= 0x10d39)
        ||| (0x10d40 <= u && u <= 0x10d49)
        ||| (0x11066 <= u && u <= 0x1106f)
        ||| (0x110f0 <= u && u <= 0x110f9)
        ||| (0x11136 <= u && u <= 0x1113f)
        ||| (0x111d0 <= u && u <= 0x111d9)
        ||| (0x112f0 <= u && u <= 0x112f9)
        ||| (0x11450 <= u && u <= 0x11459)
        ||| (0x114d0 <= u && u <= 0x114d9)
        ||| (0x11650 <= u && u <= 0x11659)
        ||| (0x116c0 <= u && u <= 0x116c9)
        ||| (0x116d0 <= u && u <= 0x116e3)
        ||| (0x11730 <= u && u <= 0x11739)
        ||| (0x118e0 <= u && u <= 0x118e9)
        ||| (0x11950 <= u && u <= 0x11959)
        ||| (0x11bf0 <= u && u <= 0x11bf9)
        ||| (0x11c50 <= u && u <= 0x11c59)
        ||| (0x11d50 <= u && u <= 0x11d59)
        ||| (0x11da0 <= u && u <= 0x11da9)
        ||| (0x11f50 <= u && u <= 0x11f59)
        ||| (0x16130 <= u && u <= 0x16139)
        ||| (0x16a60 <= u && u <= 0x16a69)
        ||| (0x16ac0 <= u && u <= 0x16ac9)
        ||| (0x16b50 <= u && u <= 0x16b59)
        ||| (0x16d70 <= u && u <= 0x16d79)
        ||| (0x1ccf0 <= u && u <= 0x1ccf9)
        ||| (0x1d7ce <= u && u <= 0x1d7ff)
        ||| (0x1e140 <= u && u <= 0x1e149)
        ||| (0x1e2f0 <= u && u <= 0x1e2f9)
        ||| (0x1e4f0 <= u && u <= 0x1e4f9)
        ||| (0x1e5f1 <= u && u <= 0x1e5fa)
        ||| (0x1e950 <= u && u <= 0x1e959)
        ||| (0x1fbf0 <= u && u <= 0x1fbf9)
}

/// Whether a character is a decimal digit of any script (Unicode `Nd`).
pub fn decimal_digit(c: char) -> (r: bool)
    ensures
        r == is_decimal_digit(c),
{
    let u = c as u32;
    (0x30 <= u && u <= 0x39)
    || (0x660 <= u && u <= 0x669)
    || (0x6f0 <= u && u <= 0x6f9)
    || (0x7c0 <= u && u <= 0x7c9)
    || (0x966 <= u && u <= 0x96f)
    || (0x9e6 <= u && u <= 0x9ef)
    || (0xa66 <= u && u <= 0xa6f)
    || (0xae6 <= u && u <= 0xaef)
    || (0xb66 <= u && u <= 0xb6f)
    || (0xbe6 <= u && u <= 0xbef)
    || (0xc66 <= u && u <= 0xc6f)
    || (0xce6 <= u && u <= 0xcef)
    || (0xd66 <= u && u <= 0xd6f)
    || (0xde6 <= u && u <= 0xdef)
    || (0xe50 <= u && u <= 0xe59)
    || (0xed0 <= u && u <= 0xed9)
    || (0xf20 <= u && u <= 0xf29)
    || (0x1040 <= u && u <= 0x1049)
    || (0x1090 <= u && u <= 0x1099)
    || (0x17e0 <= u && u <= 0x17e9)
    || (0x1810 <= u && u <= 0x1819)
    || (0x1946 <= u && u <= 0x194f)
    || (0x19d0 <= u && u <= 0x19d9)
    || (0x1a80 <= u && u <= 0x1a89)
    || (0x1a90 <= u && u <= 0x1a99)
    || (0x1b50 <= u && u <= 0x1b59)
    || (0x1bb0 <= u && u <= 0x1bb9)
    || (0x1c40 <= u && u <= 0x1c49)
    || (0x1c50 <= u && u <= 0x1c59)
    || (0xa620 <= u && u <= 0xa629)
    || (0xa8d0 <= u && u <= 0xa8d9)
    || (0xa900 <= u && u <= 0xa909)
    || (0xa9d0 <= u && u <= 0xa9d9)
    || (0xa9f0 <= u && u <= 0xa9f9)
    || (0xaa50 <= u && u <= 0xaa59)
    || (0xabf0 <= u && u <= 0xabf9)
    || (0xff10 <= u && u <= 0xff19)
    || (0x104a0 <= u && u <= 0x104a9)
    || (0x10d30 <= u && u <= 0x10d39)
    || (0x10d40 <= u && u <= 0x10d49)
    || (0x11066 <= u && u <= 0x1106f)
    || (0x110f0 <= u && u <= 0x110f9)
    || (0x11136 <= u && u <= 0x1113f)
    || (0x111d0 <= u && u <= 0x111d9)
    || (0x112f0 <= u && u <= 0x112f9)
    || (0x11450 <= u && u <= 0x11459)
    || (0x114d0 <= u && u <= 0x114d9)
    || (0x11650 <= u && u <= 0x11659)
    || (0x116c0 <= u && u <= 0x116c9)
    || (0x116d0 <= u && u <= 0x116e3)
    || (0x11730 <= u && u <= 0x11739)
    || (0x118e0 <= u && u <= 0x118e9)
    || (0x11950 <= u && u <= 0x11959)
    || (0x11bf0 <= u && u <= 0x11bf9)
    || (0x11c50 <= u && u <= 0x11c59)
    || (0x11d50 <= u && u <= 0x11d59)
    || (0x11da0 <= u && u <= 0x11da9)
    || (0x11f50 <= u && u <= 0x11f59)
    || (0x16130 <= u && u <= 0x16139)
    || (0x16a60 <= u && u <= 0x16a69)
    || (0x16ac0 <= u && u <= 0x16ac9)
    || (0x16b50 <= u && u <= 0x16b59)
    || (0x16d70 <= u && u <= 0x16d79)
    || (0x1ccf0 <= u && u <= 0x1ccf9)
    || (0x1d7ce <= u && u <= 0x1d7ff)
    || (0x1e140 <= u && u <= 0x1e149)
    || (0x1e2f0 <= u && u <= 0x1e2f9)
    || (0x1e4f0 <= u && u <= 0x1e4f9)
    || (0x1e5f1 <= u && u <= 0x1e5fa)
    || (0x1e950 <= u && u <= 0x1e959)
    || (0x1fbf0 <= u && u <= 0x1fbf9)
}

/// An ASCII digit `0`..`9`.
pub open spec fn is_ascii_digit(c: char) -> bool {
    '0' <= c && c <= '9'
}

/// The value of an ASCII digit.
pub open spec fn digit_value(c: char) -> int {
    c as int - '0' as int
}

/// Every character of `s` is an ASCII digit.
pub open spec fn all_ascii_digits(s: Seq<char>) -> bool {
    forall|i: int| 0 <= i < s.len() ==> is_ascii_digit(#[trigger] s[i])
}

/// The number that a string of ASCII digits writes in base ten.
pub open spec fn digits_value(s: Seq<char>) -> nat
    decreases s.len(),
{
    if s.len() == 0 {
        0
    } else {
        (digits_value(s.drop_last()) * 10 + digit_value(s.last())) as nat
    }
}

/// What `str::parse` of std reads from `s` for a signed integer type, before
/// the range check: an optional sign, then at least one ASCII digit.
pub open spec fn signed_decimal_value(s: Seq<char>) -> Option<int> {
    if s.len() > 1 && s[0] == '-' && all_ascii_digits(s.drop_first()) {
        Some(-(digits_value(s.drop_first()) as int))
    } else if s.len() > 1 && s[0] == '+' && all_ascii_digits(s.drop_first()) {
        Some(digits_value(s.drop_first()) as int)
    } else if s.len() > 0 && all_ascii_digits(s) {
        Some(digits_value(s) as int)
    } else {
        None
    }
}

/// What `str::parse` of std reads from `s` for an unsigned integer type, before
/// the range check: an optional `+`, then at least one ASCII digit.
pub open spec fn unsigned_decimal_value(s: Seq<char>) -> Option<int> {
    if s.len() > 1 && s[0] == '+' && all_ascii_digits(s.drop_first()) {
        Some(digits_value(s.drop_first()) as int)
    } else if s.len() > 0 && all_ascii_digits(s) {
        Some(digits_value(s) as int)
    } else {
        None
    }
}

/// `s.parse::<i64>()` of std, as an `Option`.
pub open spec fn spec_parse_i64(s: Seq<char>) -> Option<i64> {
    match signed_decimal_value(s) {
        Some(v) => if i64::MIN <= v <= i64::MAX { Some(v as i64) } else { None },
        None => None,
    }
}

/// `s.parse::<i32>()` of std, as an `Option`.
pub open spec fn spec_parse_i32(s: Seq<char>) -> Option<i32> {
    match signed_decimal_value(s) {
        Some(v) => if i32::MIN <= v <= i32::MAX { Some(v as i32) } else { None },
        None => None,
    }
}

/// `s.parse::<u32>()` of std, as an `Option`.
pub open spec fn spec_parse_u32(s: Seq<char>) -> Option<u32> {
    match unsigned_decimal_value(s) {
        Some(v) => if 0 <= v <= u32::MAX { Some(v as u32) } else { None },
        None => None,
    }
}

proof fn lemma_digits_value_prefix_le(s: Seq<char>, k: int)
    requires
        0 <= k <= s.len(),
        all_ascii_digits(s),
    ensures
        digits_value(s.take(k)) <= digits_value(s),
    decreases s.len() - k,
{
    if k < s.len() {
        let t = s.take(k + 1);
        assert(t.drop_last() == s.take(k));
        lemma_digits_value_prefix_le(s, k + 1);
        assert(is_ascii_digit(s[k]));
    } else {
        assert(s.take(k) == s);
    }
}

/// Reads ASCII digits `s[from..]` in base ten; `None` when a character is not an
/// ASCII digit or when the number exceeds `limit`.
fn read_digits(s: &[char], from: usize, limit: u64) -> (r: Option<u64>)
    requires
        from <= s.len(),
        limit >= 9,
    ensures
        r matches Some(v) ==> all_ascii_digits(s@.skip(from as int)) && v == digits_value(
            s@.skip(from as int),
        ) && v <= limit,
        r is None ==> !all_ascii_digits(s@.skip(from as int)) || digits_value(
            s@.skip(from as int),
        ) > limit,
{
    let ghost t = s@.skip(from as int);
    let mut acc: u64 = 0;
    let mut i: usize = from;
    while i < s.len()
        invariant
            from <= i <= s.len(),
            t == s@.skip(from as int),
            all_ascii_digits(t.take(i - from)),
            acc == digits_value(t.take(i - from)),
            acc <= limit,
            limit >= 9,
        decreases s.len() - i,
    {
        let c = s[i];
        assert(t[i - from] == c);
        if !('0' <= c && c <= '9') {
            assert(!all_ascii_digits(t));
            return None;
        }
        let d = (c as u32 - '0' as u32) as u64;
        assert(t.take(i - from + 1).drop_last() == t.take(i - from));
        assert(all_ascii_digits(t.take(i - from + 1)));
        if acc > (limit - d) / 10 {
            assert(digits_value(t.take(i - from + 1)) > limit) by (nonlinear_arith)
                requires
                    acc > (limit - d) / 10,
                    digits_value(t.take(i - from + 1)) == acc * 10 + d,
                    d <= 9,
                    limit >= 9,
            ;
            proof {
                if all_ascii_digits(t) {
                    lemma_digits_value_prefix_le(t, i - from + 1);
                }
            }
            return None;
        }
        assert(acc * 10 + d <= limit) by (nonlinear_arith)
            requires
                acc <= (limit - d) / 10,
                d <= 9,
                limit >= 9,
        ;
        acc = acc * 10 + d;
        i = i + 1;
    }
    assert(t.take(i - from) == t);
    Some(acc)
}

/// `s.parse::<i64>()` of std.
pub fn parse_i64(s: &[char]) -> (r: Option<i64>)
    ensures
        r == spec_parse_i64(s@),
{
    if s.len() == 0 {
        return None;
    }
    let neg = s[0] == '-';
    let signed = s[0] == '-' || s[0] == '+';
    if signed && s.len() == 1 {
        return None;
    }
    let from: usize = if signed { 1 } else { 0 };
    let limit: u64 = if neg { 0x8000_0000_0000_0000u64 } else { 0x7fff_ffff_ffff_ffffu64 };
    proof {
        if signed {
            assert(s@.skip(1) == s@.drop_first());
            assert(!all_ascii_digits(s@)) by { assert(!is_ascii_digit(s@[0])); }
        } else {
            assert(s@.skip(0) == s@);
        }
    }
    match read_digits(s, from, limit) {
        Some(v) => {
            if neg {
                if v == 0x8000_0000_0000_0000u64 {
                    Some(i64::MIN)
                } else {
                    Some(0i64 - (v as i64))
                }
            } else {
                Some(v as i64)
            }
        },
        None => None,
    }
}

/// `s.parse::<i32>()` of std.
pub fn parse_i32(s: &[char]) -> (r: Option<i32>)
    ensures
        r == spec_parse_i32(s@),
{
    match parse_i64(s) {
        Some(v) => {
            if v >= -0x8000_0000i64 && v <= 0x7fff_ffffi64 {
                Some(v as i32)
            } else {
                None
            }
        },
        None => {
            proof {
                if let Some(v) = signed_decimal_value(s@) {
                    assert(!(i64::MIN <= v <= i64::MAX));
                }
            }
            None
        },
    }
}

/// `s.parse::<u32>()` of std.
pub fn parse_u32(s: &[char]) -> (r: Option<u32>)
    ensures
        r == spec_parse_u32(s@),
{
    if s.len() == 0 {
        return None;
    }
    let plus = s[0] == '+';
    if plus && s.len() == 1 {
        return None;
    }
    let from: usize = if plus { 1 } else { 0 };
    proof {
        if plus {
            assert(s@.skip(1) == s@.drop_first());
            assert(!all_ascii_digits(s@)) by { assert(!is_ascii_digit(s@[0])); }
        } else {
            assert(s@.skip(0) == s@);
        }
    }
    match read_digits(s, from, 0xffff_ffffu64) {
        Some(v) => Some(v as u32),
        None => None,
    }
}

/// The ASCII digit of a number below ten.
pub open spec fn digit_char(d: nat) -> char {
    (d + '0' as nat) as char
}

/// A natural number written in base ten, without leading zeros.
pub open spec fn nat_decimal(n: nat) -> Seq<char>
    decreases n,
{
    if n < 10 {
        seq![digit_char(n)]
    } else {
        nat_decimal(n / 10).push(digit_char(n % 10))
    }
}

/// An integer written in base ten, as `to_string` of std writes it.
pub open spec fn int_decimal(i: int) -> Seq<char> {
    if i < 0 {
        seq!['-'] + nat_decimal((-i) as nat)
    } else {
        nat_decimal(i as nat)
    }
}

/// Appends `n` written in base ten.
pub fn push_u64_decimal(out: &mut Vec<char>, n: u64)
    ensures
        final(out)@ == old(out)@ + nat_decimal(n as nat),
    decreases n,
{
    if n >= 10 {
        push_u64_decimal(out, n / 10);
    }
    let d = (n % 10) as u32 + '0' as u32;
    let c = char_of_ascii_digit(d);
    out.push(c);
}

fn char_of_ascii_digit(d: u32) -> (c: char)
    requires
        '0' as u32 <= d <= '9' as u32,
    ensures
        c as u32 == d,
{
    match char_from_u32(d) {
        Some(c) => c,
        None => '0',
    }
}

/// Appends `n` written in base ten, with a `-` when it is negative.
pub fn push_i64_decimal(out: &mut Vec<char>, n: i64)
    ensures
        final(out)@ == old(out)@ + int_decimal(n as int),
{
    if n < 0 {
        out.push('-');
        let m: u64 = if n == i64::MIN {
            0x8000_0000_0000_0000u64
        } else {
            (0i64 - n) as u64
        };
        push_u64_decimal(out, m);
        assert(final(out)@ == old(out)@ + int_decimal(n as int)) by {
            assert(old(out)@.push('-') + nat_decimal(m as nat) == old(out)@ + (seq!['-'] + nat_decimal(m as nat)));
        };
    } else {
        push_u64_decimal(out, n as u64);
    }
}

/// `n.to_string()` of std for an `i64`.
pub fn i64_to_string(n: i64) -> (s: String)
    ensures
        s@ == int_decimal(n as int),
{
    let mut out: Vec<char> = Vec::new();
    push_i64_decimal(&mut out, n);
    assert(out@ == int_decimal(n as int));
    string_of(out.as_slice())
}


proof fn lemma_digit_char(d: nat)
    requires
        d < 10,
    ensures
        is_ascii_digit(digit_char(d)),
        digit_value(digit_char(d)) == d,
{
    assert((d + '0' as nat) as char as int == d + '0' as int);
}

/// A number written in base ten is read back as the same number.
pub proof fn lemma_nat_decimal_reads_back(n: nat)
    ensures
        nat_decimal(n).len() > 0,
        all_ascii_digits(nat_decimal(n)),
        digits_value(nat_decimal(n)) == n,
    decreases n,
{
    if n < 10 {
        lemma_digit_char(n);
        assert(seq![digit_char(n)].drop_last() =~= Seq::<char>::empty());
        assert(digits_value(Seq::<char>::empty()) == 0);
        assert(digits_value(seq![digit_char(n)]) == digits_value(Seq::<char>::empty()) * 10 + digit_value(digit_char(n)));
    } else {
        lemma_nat_decimal_reads_back(n / 10);
        lemma_digit_char(n % 10);
        let s = nat_decimal(n);
        assert(s.drop_last() == nat_decimal(n / 10));
        assert(s.last() == digit_char(n % 10));
        assert((n / 10) * 10 + n % 10 == n) by (nonlinear_arith);
        assert(digits_value(s) == digits_value(s.drop_last()) * 10 + digit_value(s.last()));
    }
}

/// `str::parse` reads back every `i64` that `to_string` wrote.
pub proof fn lemma_parse_i64_decimal(n: i64)
    ensures
        spec_parse_i64(int_decimal(n as int)) == Some(n),
{
    if n < 0 {
        let m = (-(n as int)) as nat;
        lemma_nat_decimal_reads_back(m);
        let s = int_decimal(n as int);
        assert(s.drop_first() =~= nat_decimal(m));
    } else {
        lemma_nat_decimal_reads_back(n as nat);
        let s = nat_decimal(n as nat);
        assert(is_ascii_digit(s[0]));
    }
}

/// `str::parse` reads back every `i32` that `to_string` wrote.
pub proof fn lemma_parse_i32_decimal(n: i32)
    ensures
        spec_parse_i32(int_decimal(n as int)) == Some(n),
{
    lemma_parse_i64_decimal(n as i64);
}

/// The decimal writing of an integer holds no character but `-` and digits.
pub proof fn lemma_int_decimal_chars(i: int)
    ensures
        forall|k: int| 0 <= k < int_decimal(i).len() ==> (#[trigger] int_decimal(i)[k] == '-' || is_ascii_digit(int_decimal(i)[k])),
{
    if i < 0 {
        lemma_nat_decimal_reads_back((-i) as nat);
        assert forall|k: int| 0 <= k < int_decimal(i).len() implies (#[trigger] int_decimal(i)[k] == '-' || is_ascii_digit(int_decimal(i)[k])) by {
            if k > 0 {
                assert(int_decimal(i)[k] == nat_decimal((-i) as nat)[k - 1]);
            }
        }
    } else {
        lemma_nat_decimal_reads_back(i as nat);
    }
}

} // verus!
