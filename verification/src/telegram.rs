use vstd::prelude::*;

verus! {

/// An attribute of a Telegram document, as far as this library reads it.
pub enum DocAttr {
    /// A sticker, with the emoji that stands for it.
    Sticker { alt: String },
    /// An audio file.
    Audio,
    /// The name of the file.
    Filename { name: String },
    /// An animation (a GIF, or a video without sound).
    Animated,
    /// Any other attribute.
    Other,
}

/// The alternative text of the last sticker attribute.
pub open spec fn last_sticker_alt(attrs: Seq<DocAttr>) -> Option<Seq<char>>
    decreases attrs.len(),
{
    if attrs.len() == 0 {
        None
    } else {
        match attrs.last() {
            DocAttr::Sticker { alt } => Some(alt@),
            _ => last_sticker_alt(attrs.drop_last()),
        }
    }
}

/// Some attribute marks the document as audio.
pub open spec fn has_audio(attrs: Seq<DocAttr>) -> bool {
    exists|i: int| 0 <= i < attrs.len() && attrs[i] is Audio
}

/// Whether the attributes of a document mark it as audio.
pub fn is_audio(attrs: &[DocAttr]) -> (r: bool)
    ensures
        r == has_audio(attrs@),
{
    let mut i: usize = 0;
    while i < attrs.len()
        invariant
            i <= attrs.len(),
            forall|j: int| 0 <= j < i ==> !(attrs@[j] is Audio),
        decreases attrs.len() - i,
    {
        if let DocAttr::Audio = &attrs[i] {
            return true;
        }
        i = i + 1;
    }
    false
}

/// The alternative text of the last sticker attribute of a document.
pub fn sticker_alt(attrs: &[DocAttr]) -> (r: Option<&str>)
    ensures
        r is Some <==> last_sticker_alt(attrs@) is Some,
        r matches Some(a) ==> a@ == last_sticker_alt(attrs@).unwrap(),
{
    let mut i: usize = attrs.len();
    assert(attrs@.take(i as int) == attrs@);
    while i > 0
        invariant
            i <= attrs.len(),
            last_sticker_alt(attrs@) == last_sticker_alt(attrs@.take(i as int)),
        decreases i,
    {
        assert(attrs@.take(i as int).last() == attrs@[i - 1]);
        assert(attrs@.take(i as int).drop_last() == attrs@.take(i - 1));
        if let DocAttr::Sticker { alt } = &attrs[i - 1] {
            return Some(alt.as_str());
        }
        i = i - 1;
    }
    None
}

/// The name of the first file-name attribute.
pub open spec fn first_filename(attrs: Seq<DocAttr>) -> Option<Seq<char>>
    decreases attrs.len(),
{
    if attrs.len() == 0 {
        None
    } else {
        match attrs[0] {
            DocAttr::Filename { name } => Some(name@),
            _ => first_filename(attrs.drop_first()),
        }
    }
}

/// Some attribute marks the document as an animation.
pub open spec fn has_animated(attrs: Seq<DocAttr>) -> bool {
    exists|i: int| 0 <= i < attrs.len() && attrs[i] is Animated
}

/// Whether the attributes of a document mark it as an animation.
pub fn is_animated(attrs: &[DocAttr]) -> (r: bool)
    ensures
        r == has_animated(attrs@),
{
    let mut i: usize = 0;
    while i < attrs.len()
        invariant
            i <= attrs.len(),
            forall|j: int| 0 <= j < i ==> !(attrs@[j] is Animated),
        decreases attrs.len() - i,
    {
        if let DocAttr::Animated = &attrs[i] {
            return true;
        }
        i = i + 1;
    }
    false
}

/// The file name of a document: that of its first file-name attribute.
pub fn document_name(attrs: &[DocAttr]) -> (r: Option<&str>)
    ensures
        r is Some <==> first_filename(attrs@) is Some,
        r matches Some(n) ==> n@ == first_filename(attrs@).unwrap(),
{
    let mut i: usize = 0;
    assert(attrs@.skip(0) == attrs@);
    while i < attrs.len()
        invariant
            i <= attrs.len(),
            first_filename(attrs@) == first_filename(attrs@.skip(i as int)),
        decreases attrs.len() - i,
    {
        assert(attrs@.skip(i as int)[0] == attrs@[i as int]);
        assert(attrs@.skip(i as int).drop_first() == attrs@.skip(i + 1));
        if let DocAttr::Filename { name } = &attrs[i] {
            return Some(name.as_str());
        }
        i = i + 1;
    }
    assert(attrs@.skip(i as int).len() == 0);
    None
}

/// A Telegram user, as far as this library reads it.
pub struct UserInfo {
    /// The Bot API dialog id.
    pub dialog_id: i64,
    pub username: Option<String>,
    /// The first name and the last name where there is one.
    pub full_name: String,
    pub is_bot: bool,
    /// The id of the profile photo, where there is one.
    pub photo_id: Option<i64>,
    /// The access hash of the raw user, where it has one.
    pub access_hash: Option<i64>,
}

/// A Telegram group, as far as this library reads it.
pub struct GroupInfo {
    pub dialog_id: i64,
    pub username: Option<String>,
    pub title: Option<String>,
    pub photo_id: Option<i64>,
    /// The access hash of the raw chat (only channels and forbidden channels have one).
    pub access_hash: Option<i64>,
}

/// A Telegram channel, as far as this library reads it.
pub struct ChannelInfo {
    pub dialog_id: i64,
    pub username: Option<String>,
    pub title: String,
    pub photo_id: Option<i64>,
    pub access_hash: Option<i64>,
}

/// A Telegram peer: a user, a group or a channel.
pub enum PeerInfo {
    User(UserInfo),
    Group(GroupInfo),
    Channel(ChannelInfo),
}

impl PeerInfo {
    pub open spec fn dialog_id(&self) -> i64 {
        match self {
            PeerInfo::User(u) => u.dialog_id,
            PeerInfo::Group(g) => g.dialog_id,
            PeerInfo::Channel(c) => c.dialog_id,
        }
    }

    pub open spec fn username(&self) -> Option<String> {
        match self {
            PeerInfo::User(u) => u.username,
            PeerInfo::Group(g) => g.username,
            PeerInfo::Channel(c) => c.username,
        }
    }
}

/// A size of a photo: its kind (`type`), width and height.
pub enum PhotoSizeInfo {
    Size { kind: String, w: i32, h: i32 },
    Progressive { kind: String, w: i32, h: i32 },
    /// A size the link leaves aside (cached or stripped thumbnails and the like).
    Other,
}

/// A photo as Telegram stores it.
pub struct RawPhoto {
    pub id: i64,
    pub access_hash: i64,
    pub file_reference: Vec<u8>,
    pub sizes: Vec<PhotoSizeInfo>,
}

/// A document as Telegram stores it.
pub struct RawDocument {
    pub id: i64,
    pub access_hash: i64,
    pub file_reference: Vec<u8>,
}

/// A document together with its attributes.
pub struct DocumentInfo {
    pub raw: RawDocument,
    pub attrs: Vec<DocAttr>,
}

/// The media of a Telegram message, as far as this library reads it.  Coordinates are
/// kept as the decimal text the application writes for them.
pub enum MediaInfo {
    Geo { latitude: String, longitude: String },
    /// A photo; `None` where Telegram sent an empty one.
    Photo { photo: Option<RawPhoto> },
    /// A sticker: its document (`None` where empty) and the emoji that stands for it.
    Sticker { document: Option<RawDocument>, emoji: String },
    /// A document (`None` where empty) and the flags of the media that holds it.
    Document { info: Option<DocumentInfo>, video: bool, round: bool, voice: bool },
    /// Any other media.
    Other,
}

/// The header of a reply (ids as Telegram gives them; the peer as a Bot API dialog id).
pub struct ReplyHeader {
    pub forum_topic: bool,
    pub reply_to_msg_id: Option<i32>,
    pub reply_to_top_id: Option<i32>,
    pub reply_to_peer_id: Option<i64>,
    pub quote_text: Option<String>,
    pub quote_entities: Option<Vec<crate::message_receive::MessageEntity>>,
}

/// A Telegram message, as far as this library reads it (times in seconds since the Unix
/// epoch).
pub struct MessageInfo {
    pub id: i32,
    pub text: String,
    pub entities: Option<Vec<crate::message_receive::MessageEntity>>,
    /// The reply header, where the message has one of the kind that replies to a message.
    pub reply_header: Option<ReplyHeader>,
    pub media: Option<MediaInfo>,
    pub peer: Option<PeerInfo>,
    pub sender: Option<PeerInfo>,
    pub date: i64,
    pub edit_date: Option<i64>,
}

} // verus!
