use vstd::prelude::*;

use base64::engine::general_purpose::URL_SAFE_NO_PAD;
use base64::Engine;
use base64::DecodeError;

verus! {

/// The error that decoding base64 text reports.
#[verifier::external_type_specification]
#[verifier::external_body]
pub struct ExDecodeError(DecodeError);

/// The base64 text (URL-safe alphabet, no padding) of some bytes, as `base64` writes it.
pub uninterp spec fn base64_url_text(bytes: Seq<u8>) -> Seq<char>;

/// The bytes that `base64` reads from URL-safe, unpadded base64 text; `None` where it
/// refuses the text.
pub uninterp spec fn base64_url_bytes(text: Seq<char>) -> Option<Seq<u8>>;

/// `Engine::encode` of `base64` with `BASE64_URL_SAFE_NO_PAD`.  The contract claims
/// that the result is the named text of the bytes and that decoding it with the same
/// engine gives the bytes back; it panics only when the length of the text would not
/// fit in `usize`, which `requires` excludes.
#[verifier::external_body]
fn base64_url_encode(bytes: &[u8]) -> (text: String)
    requires
        bytes.len() / 3 * 4 + 4 <= usize::MAX,
    ensures
        text@ == base64_url_text(bytes@),
        base64_url_bytes(text@) == Some(bytes@),
{
    URL_SAFE_NO_PAD.encode(bytes)
}

/// `Engine::decode` of `base64` with `BASE64_URL_SAFE_NO_PAD`.  The contract claims
/// that the result is the named reading of the text: the bytes, or an error exactly
/// where the name is `None`.
#[verifier::external_body]
fn base64_url_decode(text: &str) -> (r: Result<Vec<u8>, DecodeError>)
    ensures
        match r {
            Ok(b) => base64_url_bytes(text@) == Some(b@),
            Err(_) => base64_url_bytes(text@) is None,
        },
{
    URL_SAFE_NO_PAD.decode(text)
}

/// The eight bytes of `x`, most significant first.
pub open spec fn u64_be(x: u64) -> Seq<u8> {
    seq![
        (x >> 56) as u8,
        (x >> 48) as u8,
        (x >> 40) as u8,
        (x >> 32) as u8,
        (x >> 24) as u8,
        (x >> 16) as u8,
        (x >> 8) as u8,
        x as u8,
    ]
}

/// The number whose eight bytes, most significant first, start `b`.
pub open spec fn be_u64(b: Seq<u8>) -> u64 {
    ((b[0] as u64) << 56) | ((b[1] as u64) << 48) | ((b[2] as u64) << 40) | ((b[3] as u64) << 32)
        | ((b[4] as u64) << 24) | ((b[5] as u64) << 16) | ((b[6] as u64) << 8) | (b[7] as u64)
}

/// The four bytes of `x`, most significant first.
pub open spec fn u32_be(x: u32) -> Seq<u8> {
    seq![(x >> 24) as u8, (x >> 16) as u8, (x >> 8) as u8, x as u8]
}

/// The number whose four bytes, most significant first, start `b`.
pub open spec fn be_u32(b: Seq<u8>) -> u32 {
    ((b[0] as u32) << 24) | ((b[1] as u32) << 16) | ((b[2] as u32) << 8) | (b[3] as u32)
}

/// `i64::to_be_bytes`.
pub open spec fn i64_be(x: i64) -> Seq<u8> {
    u64_be(x as u64)
}

/// `i64::from_be_bytes` of the first eight bytes of `b`.
pub open spec fn be_i64(b: Seq<u8>) -> i64 {
    be_u64(b) as i64
}

pub const TYPE_PEER_PHOTO: u8 = 0;
pub const TYPE_PHOTO: u8 = 1;
pub const TYPE_DOCUMENT: u8 = 2;

/// A reference to a file of Telegram that an internal link carries.
pub enum FileId {
    PeerPhoto { peer_id: i64, access_hash: i64, photo_id: i64 },
    Photo { id: i64, access_hash: i64, file_reference: Vec<u8>, thumb_size: Vec<u8> },
    Document { id: i64, access_hash: i64, file_reference: Vec<u8> },
}

/// The value of a `FileId`.
pub enum FileIdView {
    PeerPhoto { peer_id: i64, access_hash: i64, photo_id: i64 },
    Photo { id: i64, access_hash: i64, file_reference: Seq<u8>, thumb_size: Seq<u8> },
    Document { id: i64, access_hash: i64, file_reference: Seq<u8> },
}

impl FileId {
    pub open spec fn view(&self) -> FileIdView {
        match self {
            FileId::PeerPhoto { peer_id, access_hash, photo_id } => FileIdView::PeerPhoto {
                peer_id: *peer_id,
                access_hash: *access_hash,
                photo_id: *photo_id,
            },
            FileId::Photo { id, access_hash, file_reference, thumb_size } => FileIdView::Photo {
                id: *id,
                access_hash: *access_hash,
                file_reference: file_reference@,
                thumb_size: thumb_size@,
            },
            FileId::Document { id, access_hash, file_reference } => FileIdView::Document {
                id: *id,
                access_hash: *access_hash,
                file_reference: file_reference@,
            },
        }
    }
}

/// A length-prefixed array: its length as four bytes (cut to 32 bits), then the bytes.
pub open spec fn array_bytes(data: Seq<u8>) -> Seq<u8> {
    u32_be(data.len() as u32) + data
}

/// The bytes of a file reference: a type byte, then the fields in order, integers as
/// eight bytes (most significant first) and byte strings as length-prefixed arrays.
pub open spec fn file_id_bytes(f: FileIdView) -> Seq<u8> {
    match f {
        FileIdView::PeerPhoto { peer_id, access_hash, photo_id } => seq![TYPE_PEER_PHOTO] + i64_be(
            peer_id,
        ) + i64_be(access_hash) + i64_be(photo_id),
        FileIdView::Photo { id, access_hash, file_reference, thumb_size } => seq![TYPE_PHOTO]
            + i64_be(id) + i64_be(access_hash) + array_bytes(file_reference) + array_bytes(
            thumb_size,
        ),
        FileIdView::Document { id, access_hash, file_reference } => seq![TYPE_DOCUMENT] + i64_be(id)
            + i64_be(access_hash) + array_bytes(file_reference),
    }
}

/// The length-prefixed array at `start` of `b` and where it ends, if `b` holds it whole.
pub open spec fn read_array_spec(b: Seq<u8>, start: int) -> Option<(Seq<u8>, int)> {
    let mid = start + 4;
    if start < 0 || mid > b.len() {
        None
    } else {
        let end = mid + be_u32(b.subrange(start, mid)) as int;
        if end > b.len() {
            None
        } else {
            Some((b.subrange(mid, end), end))
        }
    }
}

/// The file reference that `b` holds: the type byte decides the fields, which must
/// fill `b` exactly.
pub open spec fn file_id_from_bytes(b: Seq<u8>) -> Option<FileIdView> {
    if b.len() == 0 {
        None
    } else if b[0] == TYPE_PEER_PHOTO {
        if b.len() != 25 {
            None
        } else {
            Some(
                FileIdView::PeerPhoto {
                    peer_id: be_i64(b.subrange(1, 9)),
                    access_hash: be_i64(b.subrange(9, 17)),
                    photo_id: be_i64(b.subrange(17, 25)),
                },
            )
        }
    } else if b[0] == TYPE_PHOTO {
        if b.len() < 17 {
            None
        } else {
            match read_array_spec(b, 17) {
                None => None,
                Some((file_reference, i)) => match read_array_spec(b, i) {
                    None => None,
                    Some((thumb_size, j)) => if j < b.len() {
                        None
                    } else {
                        Some(
                            FileIdView::Photo {
                                id: be_i64(b.subrange(1, 9)),
                                access_hash: be_i64(b.subrange(9, 17)),
                                file_reference,
                                thumb_size,
                            },
                        )
                    },
                },
            }
        }
    } else if b[0] == TYPE_DOCUMENT {
        if b.len() < 17 {
            None
        } else {
            match read_array_spec(b, 17) {
                None => None,
                Some((file_reference, i)) => if i < b.len() {
                    None
                } else {
                    Some(
                        FileIdView::Document {
                            id: be_i64(b.subrange(1, 9)),
                            access_hash: be_i64(b.subrange(9, 17)),
                            file_reference,
                        },
                    )
                },
            }
        }
    } else {
        None
    }
}

/// The file reference that an internal link's text carries.
pub open spec fn file_id_from_text(text: Seq<char>) -> Option<FileIdView> {
    match base64_url_bytes(text) {
        Some(b) => file_id_from_bytes(b),
        None => None,
    }
}

fn push_u64_be(out: &mut Vec<u8>, x: u64)
    ensures
        final(out)@ == old(out)@ + u64_be(x),
{
    out.push((x >> 56) as u8);
    out.push((x >> 48) as u8);
    out.push((x >> 40) as u8);
    out.push((x >> 32) as u8);
    out.push((x >> 24) as u8);
    out.push((x >> 16) as u8);
    out.push((x >> 8) as u8);
    out.push(x as u8);
    assert(final(out)@ =~= old(out)@ + u64_be(x));
}

fn push_u32_be(out: &mut Vec<u8>, x: u32)
    ensures
        final(out)@ == old(out)@ + u32_be(x),
{
    out.push((x >> 24) as u8);
    out.push((x >> 16) as u8);
    out.push((x >> 8) as u8);
    out.push(x as u8);
    assert(final(out)@ =~= old(out)@ + u32_be(x));
}

fn read_u64_be(b: &[u8], at: usize) -> (x: u64)
    requires
        at + 8 <= b.len(),
    ensures
        x == be_u64(b@.subrange(at as int, at + 8)),
{
    ((b[at] as u64) << 56) | ((b[at + 1] as u64) << 48) | ((b[at + 2] as u64) << 40) | ((b[at + 3]
        as u64) << 32) | ((b[at + 4] as u64) << 24) | ((b[at + 5] as u64) << 16) | ((b[at + 6]
        as u64) << 8) | (b[at + 7] as u64)
}

fn read_u32_be(b: &[u8], at: usize) -> (x: u32)
    requires
        at + 4 <= b.len(),
    ensures
        x == be_u32(b@.subrange(at as int, at + 4)),
{
    ((b[at] as u32) << 24) | ((b[at + 1] as u32) << 16) | ((b[at + 2] as u32) << 8) | (b[at + 3]
        as u32)
}

/// Appends `data` as a length-prefixed array.
fn write_array(bytes: &mut Vec<u8>, data: &[u8])
    ensures
        final(bytes)@ == old(bytes)@ + array_bytes(data@),
{
    push_u32_be(bytes, data.len() as u32);
    let mut i: usize = 0;
    let ghost mid = bytes@;
    while i < data.len()
        invariant
            i <= data.len(),
            bytes@ == mid + data@.take(i as int),
        decreases data.len() - i,
    {
        bytes.push(data[i]);
        assert(data@.take(i + 1) == data@.take(i as int).push(data@[i as int]));
        i = i + 1;
    }
    assert(data@.take(data.len() as int) == data@);
}

/// The length-prefixed array at `start` of `bytes` and where it ends.
fn read_array(bytes: &[u8], start: usize) -> (r: Option<(Vec<u8>, usize)>)
    ensures
        match (r, read_array_spec(bytes@, start as int)) {
            (Some((d, end)), Some((sd, send))) => d@ == sd && end == send,
            (None, None) => true,
            _ => false,
        },
{
    if start > bytes.len() || bytes.len() - start < 4 {
        return None;
    }
    let mid = start + 4;
    let len = read_u32_be(bytes, start) as usize;
    if len > bytes.len() - mid {
        return None;
    }
    let end = mid + len;
    let mut d: Vec<u8> = Vec::new();
    let mut i = mid;
    while i < end
        invariant
            mid <= i <= end <= bytes.len(),
            d@ == bytes@.subrange(mid as int, i as int),
        decreases end - i,
    {
        d.push(bytes[i]);
        assert(bytes@.subrange(mid as int, i + 1) == bytes@.subrange(mid as int, i as int).push(
            bytes@[i as int],
        ));
        i = i + 1;
    }
    Some((d, end))
}

proof fn lemma_u64_roundtrip(x: u64)
    ensures
        be_u64(u64_be(x)) == x,
{
    let b = u64_be(x);
    assert(((((x >> 56) as u8) as u64) << 56) | ((((x >> 48) as u8) as u64) << 48) | ((((x >> 40)
        as u8) as u64) << 40) | ((((x >> 32) as u8) as u64) << 32) | ((((x >> 24) as u8) as u64)
        << 24) | ((((x >> 16) as u8) as u64) << 16) | ((((x >> 8) as u8) as u64) << 8) | ((x as u8)
        as u64) == x) by (bit_vector);
}

proof fn lemma_u32_roundtrip(x: u32)
    ensures
        be_u32(u32_be(x)) == x,
{
    assert(((((x >> 24) as u8) as u32) << 24) | ((((x >> 16) as u8) as u32) << 16) | ((((x >> 8)
        as u8) as u32) << 8) | ((x as u8) as u32) == x) by (bit_vector);
}

proof fn lemma_i64_roundtrip(x: i64)
    ensures
        be_i64(i64_be(x)) == x,
{
    lemma_u64_roundtrip(x as u64);
    assert(((x as u64) as i64) == x) by (bit_vector);
}

impl FileIdView {
    /// The byte strings of the reference are short enough for their 32-bit length prefix.
    pub open spec fn arrays_fit(self) -> bool {
        match self {
            FileIdView::PeerPhoto { .. } => true,
            FileIdView::Photo { file_reference, thumb_size, .. } => file_reference.len() <= u32::MAX
                && thumb_size.len() <= u32::MAX,
            FileIdView::Document { file_reference, .. } => file_reference.len() <= u32::MAX,
        }
    }
}

/// Reading the bytes of a file reference gives the reference back, for every reference
/// whose byte strings fit their 32-bit length prefix.
pub proof fn lemma_file_id_bytes_roundtrip(f: FileIdView)
    requires
        f.arrays_fit(),
    ensures
        file_id_from_bytes(file_id_bytes(f)) == Some(f),
{
    let b = file_id_bytes(f);
    match f {
        FileIdView::PeerPhoto { peer_id, access_hash, photo_id } => {
            assert(b.subrange(1, 9) == i64_be(peer_id));
            assert(b.subrange(9, 17) == i64_be(access_hash));
            assert(b.subrange(17, 25) == i64_be(photo_id));
            lemma_i64_roundtrip(peer_id);
            lemma_i64_roundtrip(access_hash);
            lemma_i64_roundtrip(photo_id);
        },
        FileIdView::Photo { id, access_hash, file_reference, thumb_size } => {
            assert(b.subrange(1, 9) == i64_be(id));
            assert(b.subrange(9, 17) == i64_be(access_hash));
            lemma_i64_roundtrip(id);
            lemma_i64_roundtrip(access_hash);
            let n1 = file_reference.len() as int;
            let n2 = thumb_size.len() as int;
            assert(b.subrange(17, 21) == u32_be(n1 as u32));
            lemma_u32_roundtrip(n1 as u32);
            assert(b.subrange(21, 21 + n1) == file_reference);
            assert(b.subrange(21 + n1, 25 + n1) == u32_be(n2 as u32));
            lemma_u32_roundtrip(n2 as u32);
            assert(b.subrange(25 + n1, 25 + n1 + n2) == thumb_size);
        },
        FileIdView::Document { id, access_hash, file_reference } => {
            assert(b.subrange(1, 9) == i64_be(id));
            assert(b.subrange(9, 17) == i64_be(access_hash));
            lemma_i64_roundtrip(id);
            lemma_i64_roundtrip(access_hash);
            let n1 = file_reference.len() as int;
            assert(b.subrange(17, 21) == u32_be(n1 as u32));
            lemma_u32_roundtrip(n1 as u32);
            assert(b.subrange(21, 21 + n1) == file_reference);
        },
    }
}

/// The text of an internal link reads back as the file reference it was written from,
/// for every reference whose byte strings fit their 32-bit length prefix.
pub proof fn lemma_file_id_text_roundtrip(f: FileIdView)
    requires
        f.arrays_fit(),
        base64_url_bytes(base64_url_text(file_id_bytes(f))) == Some(file_id_bytes(f)),
    ensures
        file_id_from_text(base64_url_text(file_id_bytes(f))) == Some(f),
{
    lemma_file_id_bytes_roundtrip(f);
}

impl FileId {
    /// The bytes of the reference (`file_id_bytes`).
    pub fn to_bytes(&self) -> (bytes: Vec<u8>)
        ensures
            bytes@ == file_id_bytes(self.view()),
    {
        let mut bytes: Vec<u8> = Vec::new();
        match self {
            FileId::PeerPhoto { peer_id, access_hash, photo_id } => {
                bytes.push(TYPE_PEER_PHOTO);
                push_u64_be(&mut bytes, *peer_id as u64);
                push_u64_be(&mut bytes, *access_hash as u64);
                push_u64_be(&mut bytes, *photo_id as u64);
            },
            FileId::Photo { id, access_hash, file_reference, thumb_size } => {
                bytes.push(TYPE_PHOTO);
                push_u64_be(&mut bytes, *id as u64);
                push_u64_be(&mut bytes, *access_hash as u64);
                write_array(&mut bytes, file_reference.as_slice());
                write_array(&mut bytes, thumb_size.as_slice());
            },
            FileId::Document { id, access_hash, file_reference } => {
                bytes.push(TYPE_DOCUMENT);
                push_u64_be(&mut bytes, *id as u64);
                push_u64_be(&mut bytes, *access_hash as u64);
                write_array(&mut bytes, file_reference.as_slice());
            },
        }
        bytes
    }

    /// The file reference that `bytes` holds (`file_id_from_bytes`).
    pub fn from_bytes(bytes: &[u8]) -> (r: Option<FileId>)
        ensures
            match r {
                Some(f) => file_id_from_bytes(bytes@) == Some(f.view()),
                None => file_id_from_bytes(bytes@) is None,
            },
    {
        if bytes.len() == 0 {
            return None;
        }
        let id_type = bytes[0];
        if id_type == TYPE_PEER_PHOTO {
            if bytes.len() != 25 {
                return None;
            }
            Some(
                FileId::PeerPhoto {
                    peer_id: read_u64_be(bytes, 1) as i64,
                    access_hash: read_u64_be(bytes, 9) as i64,
                    photo_id: read_u64_be(bytes, 17) as i64,
                },
            )
        } else if id_type == TYPE_PHOTO {
            if bytes.len() < 17 {
                return None;
            }
            let id = read_u64_be(bytes, 1) as i64;
            let access_hash = read_u64_be(bytes, 9) as i64;
            let (file_reference, i) = match read_array(bytes, 17) {
                Some(x) => x,
                None => return None,
            };
            let (thumb_size, j) = match read_array(bytes, i) {
                Some(x) => x,
                None => return None,
            };
            if j < bytes.len() {
                return None;
            }
            Some(FileId::Photo { id, access_hash, file_reference, thumb_size })
        } else if id_type == TYPE_DOCUMENT {
            if bytes.len() < 17 {
                return None;
            }
            let id = read_u64_be(bytes, 1) as i64;
            let access_hash = read_u64_be(bytes, 9) as i64;
            let (file_reference, i) = match read_array(bytes, 17) {
                Some(x) => x,
                None => return None,
            };
            if i < bytes.len() {
                return None;
            }
            Some(FileId::Document { id, access_hash, file_reference })
        } else {
            None
        }
    }

    /// The text of the reference for an internal link: its bytes in URL-safe base64
    /// without padding.
    pub fn encode(&self) -> (text: String)
        requires
            file_id_bytes(self.view()).len() <= usize::MAX / 2,
        ensures
            text@ == base64_url_text(file_id_bytes(self.view())),
            base64_url_bytes(text@) == Some(file_id_bytes(self.view())),
    {
        let bytes = self.to_bytes();
        base64_url_encode(bytes.as_slice())
    }

    /// The file reference that the text of an internal link carries; `None` where the
    /// text is no base64 or its bytes are no reference.
    pub fn decode(id: &str) -> (r: Option<FileId>)
        ensures
            match r {
                Some(f) => file_id_from_text(id@) == Some(f.view()),
                None => file_id_from_text(id@) is None,
            },
    {
        let bytes = match base64_url_decode(id) {
            Ok(b) => b,
            Err(_) => return None,
        };
        FileId::from_bytes(bytes.as_slice())
    }
}


/// What the internal link route answers: the file to download, or 404 with a reason.
pub enum InternalLinkRoute {
    Download(FileId),
    /// The link belongs to another account.
    WrongUser,
    /// The reference does not decode.
    InvalidLink,
}

/// Routes a request for an internal link `internal:telegram/{user_id}/{path}`: only links
/// of this account (`self_id`) are served, and only references that decode.
pub fn internal_link_route(self_id: i64, user_id: i64, path: &str) -> (r: InternalLinkRoute)
    ensures
        user_id != self_id ==> r is WrongUser,
        user_id == self_id ==> match file_id_from_text(path@) {
            Some(f) => r matches InternalLinkRoute::Download(g) && g.view() == f,
            None => r is InvalidLink,
        },
{
    if user_id != self_id {
        return InternalLinkRoute::WrongUser;
    }
    match FileId::decode(path) {
        Some(f) => InternalLinkRoute::Download(f),
        None => InternalLinkRoute::InvalidLink,
    }
}

} // verus!
