use vstd::prelude::*;

use base64::engine::general_purpose::STANDARD;
use base64::DecodeError;
use base64::Engine;
use image::ImageError;
use std::io::Cursor;

use crate::convert::opt_view;
use crate::text::{chars_of, push_str, str_eq, string_of};
use crate::word_chars::{is_word_char, word_char};

verus! {

/// The error of the `image` crate.
#[verifier::external_type_specification]
#[verifier::external_body]
pub struct ExImageError(ImageError);

/// The error of the `url` crate when a URL does not parse.
#[verifier::external_type_specification]
#[verifier::external_body]
pub struct ExUrlParseError(url::ParseError);

/// The bytes that `base64` reads from standard base64 text (with padding); `None` where it
/// refuses the text.
pub uninterp spec fn base64_standard_bytes(text: Seq<char>) -> Option<Seq<u8>>;

/// `Engine::decode` of `base64` with `BASE64_STANDARD`.  The contract claims that the
/// result is the named reading of the text: the bytes, or an error exactly where the name
/// is `None`.
#[verifier::external_body]
fn base64_standard_decode(text: &str) -> (r: Result<Vec<u8>, DecodeError>)
    ensures
        match r {
            Ok(b) => base64_standard_bytes(text@) == Some(b@),
            Err(_) => base64_standard_bytes(text@) is None,
        },
{
    STANDARD.decode(text)
}

/// The MIME type and the extension that `infer` recognizes in some bytes, where it
/// recognizes them.
pub uninterp spec fn inferred_type(data: Seq<u8>) -> Option<(Seq<char>, Seq<char>)>;

/// `Infer::new().get` of `infer`, with the `mime_type` and `extension` of the type it
/// finds.  The contract claims that the result is the named type of the bytes.
#[verifier::external_body]
fn infer_type(data: &[u8]) -> (r: Option<(String, String)>)
    ensures
        match r {
            Some((m, e)) => inferred_type(data@) == Some((m@, e@)),
            None => inferred_type(data@) is None,
        },
{
    infer::Infer::new().get(data).map(|t| (t.mime_type().to_string(), t.extension().to_string()))
}

/// The file extensions that `mime_guess` knows for a MIME type, where it knows any.
pub uninterp spec fn mime_extensions(mime: Seq<char>) -> Option<Seq<Seq<char>>>;

/// `get_mime_extensions_str` of `mime_guess`.  The contract claims that the result is
/// the named list of extensions for the MIME type, and that a list it gives is not empty
/// (its tables hold no MIME type without an extension).
#[verifier::external_body]
fn mime_extensions_of(mime: &str) -> (r: Option<Vec<String>>)
    ensures
        match r {
            Some(v) => mime_extensions(mime@) == Some(v@.map_values(|s: String| s@)) && v.len() > 0,
            None => mime_extensions(mime@) is None,
        },
{
    mime_guess::get_mime_extensions_str(mime).map(|exts| exts.iter().map(|e| e.to_string()).collect())
}

/// What `url` makes of a URL: `None` where it does not parse; else the segments of its
/// path (as `url` writes them, percent-encoded), `None` for a URL that cannot be a base.
pub uninterp spec fn url_path_segments(url: Seq<char>) -> Option<Option<Seq<Seq<char>>>>;

/// `Url::parse` of `url`, then its `path_segments`, each as a `String`.  The contract
/// claims that the result is the named reading of the URL: the parse error where it does
/// not parse, else the segments, or `None` where the URL cannot be a base; and, as the
/// documentation of `path_segments` says, that there is at least one segment.
#[verifier::external_body]
fn path_segments_of(url: &str) -> (r: Result<Option<Vec<String>>, url::ParseError>)
    ensures
        match r {
            Ok(Some(v)) => url_path_segments(url@) == Some(Some(v@.map_values(|s: String| s@))) && v.len() > 0,
            Ok(None) => url_path_segments(url@) == Some(None::<Seq<Seq<char>>>),
            Err(_) => url_path_segments(url@) is None,
        },
{
    url::Url::parse(url).map(|u| u.path_segments().map(|segs| segs.map(|s| s.to_string()).collect()))
}

/// `ImageReader::new(..).decode()` of `image` on the bytes, then `write_to` as PNG.  A
/// reader made by `new` has no format, and `decode` refuses to guess one, so the contract
/// claims that the result is always an error.
#[verifier::external_body]
fn png_from_image(data: Vec<u8>) -> (r: Result<Vec<u8>, ImageError>)
    ensures
        r is Err,
{
    let image = image::ImageReader::new(Cursor::new(data)).decode()?;
    let mut out = Vec::new();
    image.write_to(Cursor::new(&mut out), image::ImageFormat::Png)?;
    Ok(out)
}

/// Why a media element could not be prepared for upload.
pub enum MediaError {
    /// The element has no `src`.
    MissingSource,
    /// The base64 payload of a `data:` URL does not decode.
    Base64(DecodeError),
    /// The URL does not parse.
    Url(url::ParseError),
    /// The URL has no path to take a file name from.
    NoPathSegment,
    /// The image could not be converted to PNG.
    Image(ImageError),
}

/// A character that may stand in the MIME type of a `data:` URL: a word character, `/`,
/// `.`, `+` or `-`.
pub open spec fn is_mime_char(c: char) -> bool {
    is_word_char(c) || c == '/' || c == '.' || c == '+' || c == '-'
}

/// How many MIME characters follow from `i` on.
pub open spec fn mime_run(s: Seq<char>, i: int) -> int
    decreases s.len() - i,
{
    if 0 <= i < s.len() && is_mime_char(s[i]) {
        1 + mime_run(s, i + 1)
    } else {
        0
    }
}

pub open spec fn data_prefix() -> Seq<char> {
    seq!['d', 'a', 't', 'a', ':']
}

pub open spec fn base64_marker() -> Seq<char> {
    seq![';', 'b', 'a', 's', 'e', '6', '4', ',']
}

/// The MIME type and the payload of a URL that starts `data:TYPE;base64,` with a
/// non-empty TYPE of MIME characters; `None` for any other URL.
pub open spec fn data_url_parts(s: Seq<char>) -> Option<(Seq<char>, Seq<char>)> {
    let n = mime_run(s, 5);
    if s.len() >= 5 && s.take(5) == data_prefix() && n > 0 && s.len() >= 13 + n && s.subrange(5 + n, 13 + n)
        == base64_marker() {
        Some((s.subrange(5, 5 + n), s.skip(13 + n)))
    } else {
        None
    }
}

proof fn lemma_mime_run_exact(s: Seq<char>, i: int, n: int)
    requires
        0 <= i,
        0 <= n,
        i + n <= s.len(),
        forall|k: int| i <= k < i + n ==> is_mime_char(#[trigger] s[k]),
        i + n == s.len() || !is_mime_char(s[i + n]),
    ensures
        mime_run(s, i) == n,
    decreases n,
{
    if n > 0 {
        lemma_mime_run_exact(s, i + 1, n - 1);
    }
}

/// A `data:` URL reads back as the MIME type and the payload it was written from, for any
/// non-empty type of MIME characters; a URL that does not start with `data:` is no data
/// URL.
pub proof fn lemma_data_url_reads_back(mime: Seq<char>, payload: Seq<char>, other: Seq<char>)
    requires
        mime.len() > 0,
        forall|k: int| 0 <= k < mime.len() ==> is_mime_char(#[trigger] mime[k]),
    ensures
        data_url_parts(data_prefix() + mime + base64_marker() + payload) == Some((mime, payload)),
        !(other.len() >= 5 && other.take(5) == data_prefix()) ==> data_url_parts(other) is None,
{
    let s = data_prefix() + mime + base64_marker() + payload;
    let n = mime.len() as int;
    assert forall|k: int| 5 <= k < 5 + n implies is_mime_char(#[trigger] s[k]) by {
        assert(s[k] == mime[k - 5]);
    }
    assert(s[5 + n] == ';');
    assert(!is_mime_char(';')) by {
        assert(!crate::word_chars::is_word_char(';'));
    }
    lemma_mime_run_exact(s, 5, n);
    assert(s.take(5) =~= data_prefix());
    assert(s.subrange(5 + n, 13 + n) =~= base64_marker());
    assert(s.subrange(5, 5 + n) =~= mime);
    assert(s.skip(13 + n) =~= payload);
}

proof fn lemma_mime_run_bounds(s: Seq<char>, i: int)
    requires
        0 <= i <= s.len(),
    ensures
        0 <= mime_run(s, i) <= s.len() - i,
        forall|k: int| i <= k < i + mime_run(s, i) ==> is_mime_char(#[trigger] s[k]),
        i + mime_run(s, i) < s.len() ==> !is_mime_char(s[i + mime_run(s, i)]),
    decreases s.len() - i,
{
    if i < s.len() && is_mime_char(s[i]) {
        lemma_mime_run_bounds(s, i + 1);
    }
}

fn chars_match(cs: &[char], at: usize, pat: &[char]) -> (r: bool)
    requires
        at <= cs.len(),
    ensures
        r == (cs.len() >= at + pat.len() && cs@.subrange(at as int, at + pat.len()) == pat@),
{
    if cs.len() - at < pat.len() {
        return false;
    }
    let mut k: usize = 0;
    while k < pat.len()
        invariant
            k <= pat.len(),
            at + pat.len() <= cs.len(),
            forall|j: int| 0 <= j < k ==> cs@[at + j] == pat@[j],
        decreases pat.len() - k,
    {
        if cs[at + k] != pat[k] {
            assert(cs@.subrange(at as int, at + pat.len())[k as int] != pat@[k as int]);
            return false;
        }
        k = k + 1;
    }
    assert(cs@.subrange(at as int, at + pat.len()) =~= pat@);
    true
}

/// The MIME type and the base64 payload of a `data:` URL (`^data:([\w/.+-]+);base64,`).
pub fn parse_data_url(url: &str) -> (r: Option<(String, String)>)
    ensures
        match r {
            Some((m, p)) => data_url_parts(url@) == Some((m@, p@)),
            None => data_url_parts(url@) is None,
        },
{
    let cs = chars_of(url);
    let s = cs.as_slice();
    if s.len() < 5 || !chars_match(s, 0, &['d', 'a', 't', 'a', ':']) {
        proof {
            if s@.len() >= 5 {
                assert(s@.subrange(0, 5) == s@.take(5));
            }
        }
        return None;
    }
    assert(s@.subrange(0, 5) == s@.take(5));
    let mut i: usize = 5;
    while i < s.len() && (word_char(s[i]) || s[i] == '/' || s[i] == '.' || s[i] == '+' || s[i] == '-')
        invariant
            5 <= i <= s.len(),
            mime_run(s@, 5) == (i - 5) + mime_run(s@, i as int),
        decreases s.len() - i,
    {
        i = i + 1;
    }
    proof {
        lemma_mime_run_bounds(s@, i as int);
    }
    assert(mime_run(s@, i as int) == 0);
    let n = i - 5;
    if n == 0 || !chars_match(s, i, &[';', 'b', 'a', 's', 'e', '6', '4', ',']) {
        return None;
    }
    let ms = &s[5..i];
    let ps = &s[i + 8..s.len()];
    assert(s@.subrange(5, i as int) =~= ms@);
    assert(s@.skip(i + 8) =~= ps@);
    let mime = string_of(ms);
    let payload = string_of(ps);
    Some((mime, payload))
}

/// The first extension known for a MIME type, or `bin`.
pub open spec fn first_ext(exts: Option<Seq<Seq<char>>>) -> Seq<char> {
    match exts {
        Some(v) => v[0],
        None => "bin"@,
    }
}

/// The MIME type and extension of some bytes: as `infer` recognizes them, else the given
/// MIME type with its first known extension (or `bin`).
pub open spec fn data_kind(data: Seq<u8>, mime: Seq<char>) -> (Seq<char>, Seq<char>) {
    match inferred_type(data) {
        Some(t) => t,
        None => (mime, first_ext(mime_extensions(mime))),
    }
}

/// An image type that Telegram takes as it is.
pub open spec fn valid_image_mime(m: Seq<char>) -> bool {
    m == "image/jpg"@ || m == "image/png"@ || m == "image/gif"@
}

/// The name ends, after a dot and at least one other byte, with the extension (compared
/// byte by byte in UTF-8).
pub open spec fn extension_matches(name: Seq<char>, ext: Seq<char>) -> bool {
    let nb = vstd::utf8::encode_utf8(name);
    let eb = vstd::utf8::encode_utf8(ext);
    nb.len() > eb.len() + 1 && nb[nb.len() - eb.len() - 1] == 46u8 && nb.skip(nb.len() - eb.len()) == eb
}

/// The name, with `.` and the extension appended unless it already ends with them.
pub open spec fn with_extension(name: Seq<char>, ext: Seq<char>) -> Seq<char> {
    if extension_matches(name, ext) {
        name
    } else {
        name + seq!['.'] + ext
    }
}

proof fn lemma_encode_utf8_concat(a: Seq<char>, b: Seq<char>)
    ensures
        vstd::utf8::encode_utf8(a + b) == vstd::utf8::encode_utf8(a) + vstd::utf8::encode_utf8(b),
        a.len() > 0 ==> vstd::utf8::encode_utf8(a).len() > 0,
    decreases a.len(),
{
    if a.len() > 0 {
        lemma_encode_utf8_concat(a.drop_first(), b);
        assert((a + b).drop_first() =~= a.drop_first() + b);
        assert((a + b)[0] == a[0]);
        let e0 = vstd::utf8::encode_scalar(a[0] as u32);
        assert(e0.len() > 0);
        assert(e0 + (vstd::utf8::encode_utf8(a.drop_first()) + vstd::utf8::encode_utf8(b)) =~= e0
            + vstd::utf8::encode_utf8(a.drop_first()) + vstd::utf8::encode_utf8(b));
    } else {
        assert(a + b =~= b);
        assert(vstd::utf8::encode_utf8(a) =~= Seq::<u8>::empty());
        assert(Seq::<u8>::empty() + vstd::utf8::encode_utf8(b) =~= vstd::utf8::encode_utf8(b));
    }
}

/// The name of an upload ends with a dot and its extension: a non-empty name that already
/// does is kept as it is, any other gets `.` and the extension appended.
pub proof fn lemma_with_extension(name: Seq<char>, ext: Seq<char>)
    ensures
        extension_matches(name, ext) ==> with_extension(name, ext) == name,
        !extension_matches(name, ext) ==> with_extension(name, ext) == name + seq!['.'] + ext,
        name.len() > 0 ==> extension_matches(with_extension(name, ext), ext),
{
    if name.len() > 0 && !extension_matches(name, ext) {
        let dot = seq!['.'];
        lemma_encode_utf8_concat(name, dot);
        lemma_encode_utf8_concat(name + dot, ext);
        let nb = vstd::utf8::encode_utf8(name);
        let eb = vstd::utf8::encode_utf8(ext);
        assert(dot.drop_first() =~= Seq::<char>::empty());
        assert(vstd::utf8::encode_utf8(Seq::<char>::empty()) =~= Seq::<u8>::empty());
        assert(('.' as u32) == 46);
        assert(((46u32 & 0x7Fu32) as u8) == 46u8) by (bit_vector);
        assert(vstd::utf8::encode_scalar(46u32) =~= seq![46u8]);
        assert(vstd::utf8::encode_utf8(dot) =~= seq![46u8]);
        let all = nb + seq![46u8] + eb;
        assert(vstd::utf8::encode_utf8(name + dot + ext) == all);
        assert(all[all.len() - eb.len() - 1] == 46u8);
        assert(all.skip(all.len() - eb.len()) =~= eb);
    }
}

/// A name given for an upload counts only when it is not empty.
pub open spec fn given_name(name: Option<Seq<char>>) -> Option<Seq<char>> {
    match name {
        Some(n) => if n.len() > 0 {
            Some(n)
        } else {
            None
        },
        None => None,
    }
}

/// `file.` and the extension.
pub open spec fn default_name(ext: Seq<char>) -> Seq<char> {
    seq!['f', 'i', 'l', 'e', '.'] + ext
}

fn bytes_eq(a: &[u8], b: &[u8]) -> (r: bool)
    ensures
        r == (a@ == b@),
{
    if a.len() != b.len() {
        return false;
    }
    let mut k: usize = 0;
    while k < a.len()
        invariant
            k <= a.len(),
            a.len() == b.len(),
            forall|j: int| 0 <= j < k ==> a@[j] == b@[j],
        decreases a.len() - k,
    {
        if a[k] != b[k] {
            return false;
        }
        k = k + 1;
    }
    assert(a@ =~= b@);
    true
}

/// Whether `name` ends with `.` and the extension `ext`, after at least one other byte.
fn extension_match(name: &str, ext: &str) -> (r: bool)
    ensures
        r == extension_matches(name@, ext@),
{
    let nb = name.as_bytes();
    let eb = ext.as_bytes();
    if nb.len() <= eb.len() || nb.len() - eb.len() <= 1 {
        return false;
    }
    let at = nb.len() - eb.len();
    if nb[at - 1] != 46u8 {
        return false;
    }
    let tail = &nb[at..nb.len()];
    assert(tail@ =~= nb@.skip(at as int));
    bytes_eq(tail, eb)
}

/// Whether Telegram takes an image of this MIME type as it is.
fn image_mime_valid(mime: &str) -> (r: bool)
    ensures
        r == valid_image_mime(mime@),
{
    str_eq(mime, "image/jpg") || str_eq(mime, "image/png") || str_eq(mime, "image/gif")
}

fn name_with_extension(name: &str, ext: &str) -> (r: String)
    ensures
        r@ == with_extension(name@, ext@),
{
    if extension_match(name, ext) {
        name.to_owned()
    } else {
        let mut s = name.to_owned();
        push_str(&mut s, ".");
        push_str(&mut s, ext);
        proof {
            reveal_strlit(".");
        }
        s
    }
}

fn default_file_name(ext: &str) -> (r: String)
    ensures
        r@ == default_name(ext@),
{
    let mut s = string_of(&['f', 'i', 'l', 'e', '.']);
    push_str(&mut s, ext);
    s
}

fn nonempty_name(name: Option<&str>) -> (r: Option<&str>)
    ensures
        opt_str_view(r) == given_name(opt_str_view(name)),
{
    match name {
        Some(n) => if n.unicode_len() > 0 {
            Some(n)
        } else {
            None
        },
        None => None,
    }
}

pub open spec fn opt_str_view(o: Option<&str>) -> Option<Seq<char>> {
    match o {
        Some(s) => Some(s@),
        None => None,
    }
}

fn first_extension(mime: &str) -> (r: String)
    ensures
        r@ == first_ext(mime_extensions(mime@)),
{
    match mime_extensions_of(mime) {
        Some(v) => {
            assert(v@.map_values(|s: String| s@)[0] == v@[0]@);
            v[0].clone()
        },
        None => "bin".to_owned(),
    }
}

/// The MIME type and extension of some bytes, the given MIME type standing in where
/// `infer` recognizes nothing.
fn detect_kind(data: &[u8], mime: &str) -> (r: (String, String))
    ensures
        (r.0@, r.1@) == data_kind(data@, mime@),
{
    match infer_type(data) {
        Some(t) => t,
        None => (mime.to_owned(), first_extension(mime)),
    }
}

/// Bytes ready for upload, with the file name and MIME type to upload them under.
pub struct PreparedUpload {
    pub data: Vec<u8>,
    pub name: String,
    pub mime: String,
}

/// The name of an image upload: the given name with the extension, else `file.EXT`.
pub open spec fn image_name(name: Option<Seq<char>>, ext: Seq<char>) -> Seq<char> {
    match given_name(name) {
        Some(n) => with_extension(n, ext),
        None => default_name(ext),
    }
}

/// Prepares the image of a `data:` URL (its MIME type and base64 payload): the payload
/// decodes, and its type is taken from the bytes (else from the URL).  A type Telegram does
/// not take as it is must be converted to PNG, which fails.
pub fn prepare_data_image(mime: &str, payload: &str, name: Option<&str>) -> (r: Result<PreparedUpload, MediaError>)
    ensures
        match base64_standard_bytes(payload@) {
            None => r matches Err(MediaError::Base64(_)),
            Some(data) => {
                let (m, e) = data_kind(data, mime@);
                if valid_image_mime(m) {
                    r matches Ok(p) && p.data@ == data && p.mime@ == m && p.name@ == image_name(
                        opt_str_view(name),
                        e,
                    )
                } else {
                    r matches Err(MediaError::Image(_))
                }
            },
        },
{
    let data = match base64_standard_decode(payload) {
        Ok(d) => d,
        Err(e) => {
            return Err(MediaError::Base64(e));
        },
    };
    let (mut m, mut e) = detect_kind(data.as_slice(), mime);
    let mut data = data;
    if !image_mime_valid(m.as_str()) {
        match png_from_image(data) {
            Ok(converted) => {
                data = converted;
                m = "image/png".to_owned();
                e = "png".to_owned();
            },
            Err(err) => {
                return Err(MediaError::Image(err));
            },
        }
    }
    let file_name = match nonempty_name(name) {
        Some(n) => name_with_extension(n, e.as_str()),
        None => default_file_name(e.as_str()),
    };
    Ok(PreparedUpload { data, name: file_name, mime: m })
}

/// The name of a media upload from a `data:` URL: the given name, else `file.EXT` with
/// the extension of the bytes.
pub open spec fn data_media_name(data: Seq<u8>, mime: Seq<char>, name: Option<Seq<char>>) -> Seq<char> {
    match given_name(name) {
        Some(n) => n,
        None => default_name(data_kind(data, mime).1),
    }
}

/// Prepares the file of a `data:` URL (its MIME type and base64 payload): the payload
/// decodes and keeps the given name, else gets `file.EXT`.
pub fn prepare_data_media(mime: &str, payload: &str, name: Option<&str>) -> (r: Result<PreparedUpload, MediaError>)
    ensures
        match base64_standard_bytes(payload@) {
            None => r matches Err(MediaError::Base64(_)),
            Some(data) => r matches Ok(p) && p.data@ == data && p.name@ == data_media_name(
                data,
                mime@,
                opt_str_view(name),
            ) && p.mime@ == mime@,
        },
{
    let data = match base64_standard_decode(payload) {
        Ok(d) => d,
        Err(e) => {
            return Err(MediaError::Base64(e));
        },
    };
    let file_name = match nonempty_name(name) {
        Some(n) => n.to_owned(),
        None => {
            let (_, e) = detect_kind(data.as_slice(), mime);
            default_file_name(e.as_str())
        },
    };
    Ok(PreparedUpload { data, name: file_name, mime: mime.to_owned() })
}

/// The type of an image found in a file: what `infer` read from it, else unknown binary
/// data.  A type Telegram does not take is converted: the file is re-encoded as PNG into a
/// temporary file, which is uploaded in its place.
pub struct ImageKind {
    pub mime: String,
    pub ext: String,
    /// Re-encode the image as PNG before the upload.
    pub convert: bool,
    /// Upload a temporary file (the converted image) instead of the given one.
    pub use_temp_file: bool,
}

/// The MIME type, the extension, and whether the image is converted to PNG.
pub open spec fn file_image_kind_spec(inferred: Option<(Seq<char>, Seq<char>)>) -> (Seq<char>, Seq<char>, bool) {
    let (m, e) = match inferred {
        Some(t) => t,
        None => ("application/octet-stream"@, "bin"@),
    };
    if valid_image_mime(m) {
        (m, e, false)
    } else {
        ("image/png"@, "png"@, true)
    }
}

/// Decides the type of an image file from what `infer` read from it, and whether it is
/// converted to PNG in a temporary file.
pub fn file_image_kind(inferred: Option<(String, String)>) -> (r: ImageKind)
    ensures
        (r.mime@, r.ext@, r.convert) == file_image_kind_spec(
            match inferred {
                Some((m, e)) => Some((m@, e@)),
                None => None,
            },
        ),
        r.use_temp_file == r.convert,
{
    let (m, e) = match inferred {
        Some(t) => t,
        None => ("application/octet-stream".to_owned(), "bin".to_owned()),
    };
    if image_mime_valid(m.as_str()) {
        ImageKind { mime: m, ext: e, convert: false, use_temp_file: false }
    } else {
        ImageKind { mime: "image/png".to_owned(), ext: "png".to_owned(), convert: true, use_temp_file: true }
    }
}

/// The name of an image uploaded from a file: the given name, else the file's own name,
/// with the extension appended unless it ends with it.
pub fn file_image_name(name: Option<&str>, file_name: &str, ext: &str) -> (r: String)
    ensures
        r@ == with_extension(
            match given_name(opt_str_view(name)) {
                Some(n) => n,
                None => file_name@,
            },
            ext@,
        ),
{
    match nonempty_name(name) {
        Some(n) => name_with_extension(n, ext),
        None => name_with_extension(file_name, ext),
    }
}

/// The name of a media upload from a file: the given name where it is not empty.
pub fn file_media_name(name: Option<&str>) -> (r: Option<String>)
    ensures
        opt_view(r) == given_name(opt_str_view(name)),
{
    match nonempty_name(name) {
        Some(n) => Some(n.to_owned()),
        None => None,
    }
}

/// The base name of an upload from a URL: the given name, else the last segment of the
/// URL's path.
pub open spec fn remote_base_name(url: Seq<char>, name: Option<Seq<char>>) -> Option<Seq<char>> {
    match given_name(name) {
        Some(n) => Some(n),
        None => match url_path_segments(url) {
            Some(Some(segs)) => Some(segs.last()),
            _ => None,
        },
    }
}

/// The name of a file fetched from a URL: the given name, else the last segment of the
/// URL's path; an error where the URL does not parse or has no path.
pub fn remote_media_name(url: &str, name: Option<&str>) -> (r: Result<String, MediaError>)
    ensures
        match r {
            Ok(n) => remote_base_name(url@, opt_str_view(name)) == Some(n@),
            Err(MediaError::Url(_)) => given_name(opt_str_view(name)) is None && url_path_segments(url@) is None,
            Err(MediaError::NoPathSegment) => given_name(opt_str_view(name)) is None && url_path_segments(url@)
                == Some(None::<Seq<Seq<char>>>),
            Err(_) => false,
        },
{
    match nonempty_name(name) {
        Some(n) => Ok(n.to_owned()),
        None => match path_segments_of(url) {
            Ok(Some(segs)) => {
                let ghost sv = segs@;
                let mut segs = segs;
                let last = segs.pop().unwrap();
                proof {
                    assert(sv.map_values(|s: String| s@).last() == sv.last()@);
                }
                Ok(last)
            },
            Ok(None) => Err(MediaError::NoPathSegment),
            Err(e) => Err(MediaError::Url(e)),
        },
    }
}

/// How to upload an image fetched from a URL.
pub struct RemoteImagePlan {
    /// Stream the response to Telegram as it comes (else save it to a file first).
    pub stream: bool,
    /// Convert the saved file to PNG before the upload.
    pub convert: bool,
    pub name: String,
    pub mime: String,
}

/// The MIME type and extension an HTTP response announces: its `Content-Type` with the
/// first extension known for it (or `bin`), else unknown binary data.
pub open spec fn announced_kind(content_type: Option<Seq<char>>) -> (Seq<char>, Seq<char>) {
    match content_type {
        Some(ct) => (ct, first_ext(mime_extensions(ct))),
        None => ("application/octet-stream"@, "bin"@),
    }
}

/// Plans the upload of an image fetched from a URL, from what its response announced: an
/// image Telegram takes as it is streams where its length is known; else it is saved
/// first, and converted to PNG where Telegram does not take its type.
pub fn remote_image_plan(url: &str, name: Option<&str>, content_type: Option<&str>, content_length: Option<u64>) -> (r: Result<RemoteImagePlan, MediaError>)
    ensures
        match remote_base_name(url@, opt_str_view(name)) {
            Some(base) => {
                let (m, e) = announced_kind(opt_str_view(content_type));
                let valid = valid_image_mime(m);
                r matches Ok(p) && p.stream == (content_length is Some && valid) && p.convert == !valid
                    && p.mime@ == (if valid {
                    m
                } else {
                    "image/png"@
                }) && p.name@ == with_extension(
                    base,
                    if valid {
                        e
                    } else {
                        "png"@
                    },
                )
            },
            None => r is Err,
        },
{
    let (m, e) = match content_type {
        Some(ct) => (ct.to_owned(), first_extension(ct)),
        None => ("application/octet-stream".to_owned(), "bin".to_owned()),
    };
    let base = remote_media_name(url, name)?;
    let valid = image_mime_valid(m.as_str());
    let stream = content_length.is_some() && valid;
    if valid {
        let file_name = name_with_extension(base.as_str(), e.as_str());
        Ok(RemoteImagePlan { stream, convert: false, name: file_name, mime: m })
    } else {
        let file_name = name_with_extension(base.as_str(), "png");
        Ok(RemoteImagePlan { stream, convert: true, name: file_name, mime: "image/png".to_owned() })
    }
}

/// How an uploaded file is attached to a message.
#[derive(Clone, Copy, PartialEq, Eq, Structural)]
pub enum InputKind {
    Photo,
    Document,
    File,
}

/// The kind of upload a media element asks for.
#[derive(Clone, Copy, PartialEq, Eq, Structural)]
pub enum UploadKind {
    Image,
    Audio,
    Video,
    File,
}

/// The upload kind of a media tag: `img` and `image` are images; `audio`, `video` and
/// `file` are themselves; any other tag is no media.
pub fn upload_kind(tag: &str) -> (r: Option<UploadKind>)
    ensures
        r == (if tag@ == "img"@ || tag@ == "image"@ {
            Some(UploadKind::Image)
        } else if tag@ == "audio"@ {
            Some(UploadKind::Audio)
        } else if tag@ == "video"@ {
            Some(UploadKind::Video)
        } else if tag@ == "file"@ {
            Some(UploadKind::File)
        } else {
            None
        }),
{
    if str_eq(tag, "img") || str_eq(tag, "image") {
        Some(UploadKind::Image)
    } else if str_eq(tag, "audio") {
        Some(UploadKind::Audio)
    } else if str_eq(tag, "video") {
        Some(UploadKind::Video)
    } else if str_eq(tag, "file") {
        Some(UploadKind::File)
    } else {
        None
    }
}

/// How an upload is attached: a GIF image as a file, another image as a photo, audio and
/// video as documents, a file as a file.
pub fn input_kind(kind: UploadKind, mime: &str) -> (r: InputKind)
    ensures
        r == match kind {
            UploadKind::Image => if mime@ == "image/gif"@ {
                InputKind::File
            } else {
                InputKind::Photo
            },
            UploadKind::Audio => InputKind::Document,
            UploadKind::Video => InputKind::Document,
            UploadKind::File => InputKind::File,
        },
{
    match kind {
        UploadKind::Image => if str_eq(mime, "image/gif") {
            InputKind::File
        } else {
            InputKind::Photo
        },
        UploadKind::Audio => InputKind::Document,
        UploadKind::Video => InputKind::Document,
        UploadKind::File => InputKind::File,
    }
}

} // verus!
