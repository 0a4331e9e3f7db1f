use vstd::prelude::*;

use crate::file_id::{base64_url_text, file_id_bytes, FileId, FileIdView};
use crate::telegram::{
    ChannelInfo, GroupInfo, PeerInfo, PhotoSizeInfo, RawDocument, RawPhoto, UserInfo,
};
use crate::error::{WebError, BAD_REQUEST};
use crate::infos::{dialog_peer, peer_of_dialog_id};
use crate::markup::find_char;
use crate::text::{
    append_chars, append_str, chars_of, int_decimal, parse_i32, parse_i64, push_i64_decimal, push_str,
    spec_parse_i32, spec_parse_i64, string_of,
};
use crate::types::{Channel, ChannelType, Guild, Login, LoginStatus, Member, Message, Role, User};

verus! {

pub open spec fn opt_view(o: Option<String>) -> Option<Seq<char>> {
    match o {
        Some(s) => Some(s@),
        None => None,
    }
}

/// The link under which the bridge serves a file of Telegram for the account `self_id`.
pub open spec fn internal_link(self_id: i64, f: FileIdView) -> Seq<char> {
    "internal:telegram/"@ + int_decimal(self_id as int) + "/"@ + base64_url_text(file_id_bytes(f))
}

/// The reference to the profile photo of a peer.
pub open spec fn peer_photo_file(dialog_id: i64, access_hash: Option<i64>, photo_id: i64) -> FileIdView {
    FileIdView::PeerPhoto {
        peer_id: dialog_id,
        access_hash: match access_hash {
            Some(h) => h,
            None => 0,
        },
        photo_id,
    }
}

pub open spec fn user_photo_link(self_id: i64, u: UserInfo) -> Option<Seq<char>> {
    match u.photo_id {
        Some(p) => Some(internal_link(self_id, peer_photo_file(u.dialog_id, u.access_hash, p))),
        None => None,
    }
}

pub open spec fn group_photo_link(self_id: i64, g: GroupInfo) -> Option<Seq<char>> {
    match g.photo_id {
        Some(p) => Some(internal_link(self_id, peer_photo_file(g.dialog_id, g.access_hash, p))),
        None => None,
    }
}

pub open spec fn channel_photo_link(self_id: i64, c: ChannelInfo) -> Option<Seq<char>> {
    match c.photo_id {
        Some(p) => Some(internal_link(self_id, peer_photo_file(c.dialog_id, c.access_hash, p))),
        None => None,
    }
}

pub open spec fn peer_photo_link(self_id: i64, p: PeerInfo) -> Option<Seq<char>> {
    match p {
        PeerInfo::User(u) => user_photo_link(self_id, u),
        PeerInfo::Group(g) => group_photo_link(self_id, g),
        PeerInfo::Channel(c) => channel_photo_link(self_id, c),
    }
}

/// The kind and the area of a size that the link reads.
pub open spec fn size_area(s: PhotoSizeInfo) -> Option<(Seq<char>, int)> {
    match s {
        PhotoSizeInfo::Size { kind, w, h } => Some((kind@, w * h)),
        PhotoSizeInfo::Progressive { kind, w, h } => Some((kind@, w * h)),
        PhotoSizeInfo::Other => None,
    }
}

/// The largest size, the last of those with the largest area.
pub open spec fn largest_size(sizes: Seq<PhotoSizeInfo>) -> Option<(Seq<char>, int)>
    decreases sizes.len(),
{
    if sizes.len() == 0 {
        None
    } else {
        let prev = largest_size(sizes.drop_last());
        match size_area(sizes.last()) {
            None => prev,
            Some((k, a)) => match prev {
                None => Some((k, a)),
                Some((pk, pa)) => if a >= pa {
                    Some((k, a))
                } else {
                    prev
                },
            },
        }
    }
}

/// The size has no area, or one of at most `a`.
pub open spec fn area_at_most(s: PhotoSizeInfo, a: int) -> bool {
    match size_area(s) {
        Some((_, b)) => b <= a,
        None => true,
    }
}

/// The size has no area, or one below `a`.
pub open spec fn area_below(s: PhotoSizeInfo, a: int) -> bool {
    match size_area(s) {
        Some((_, b)) => b < a,
        None => true,
    }
}

/// The size a photo link reads is the largest: it is one of the sizes, no size has a
/// larger area, and no later size has as large an area; there is none only where no size
/// has an area.
pub proof fn lemma_largest_size(sizes: Seq<PhotoSizeInfo>)
    ensures
        largest_size(sizes) is None ==> forall|j: int| 0 <= j < sizes.len() ==> size_area(#[trigger] sizes[j]) is None,
        largest_size(sizes) matches Some((k, a)) ==> (exists|i: int|
            0 <= i < sizes.len() && size_area(#[trigger] sizes[i]) == Some((k, a)) && forall|j: int|
                i < j < sizes.len() ==> area_below(#[trigger] sizes[j], a)),
        largest_size(sizes) matches Some((k, a)) ==> forall|j: int| 0 <= j < sizes.len() ==> area_at_most(#[trigger] sizes[j], a),
    decreases sizes.len(),
{
    if sizes.len() > 0 {
        let d = sizes.drop_last();
        lemma_largest_size(d);
        let l = sizes.last();
        assert(l == sizes[sizes.len() - 1]);
        assert forall|j: int| 0 <= j < d.len() implies d[j] == sizes[j] by {}
        match largest_size(sizes) {
            Some((k, a)) => {
                let found_last = size_area(l) == Some((k, a));
                if found_last {
                    assert(size_area(sizes[sizes.len() - 1]) == Some((k, a)));
                } else {
                    assert(largest_size(d) == Some((k, a)));
                    let i = choose|i: int|
                        0 <= i < d.len() && size_area(#[trigger] d[i]) == Some((k, a)) && forall|j: int|
                            i < j < d.len() ==> area_below(#[trigger] d[j], a);
                    assert(size_area(sizes[i]) == Some((k, a)));
                    assert(area_below(l, a));
                    assert forall|j: int| i < j < sizes.len() implies area_below(#[trigger] sizes[j], a) by {
                        if j < d.len() {
                            assert(sizes[j] == d[j]);
                        }
                    }
                }
                assert forall|j: int| 0 <= j < sizes.len() implies area_at_most(#[trigger] sizes[j], a) by {
                    if j < d.len() {
                        assert(sizes[j] == d[j]);
                        assert(area_at_most(d[j], a)) by {
                            match largest_size(d) {
                                Some((pk, pa)) => {
                                    assert(area_at_most(d[j], pa));
                                },
                                None => {},
                            }
                        }
                    }
                }
            },
            None => {
                assert forall|j: int| 0 <= j < sizes.len() implies size_area(#[trigger] sizes[j]) is None by {
                    if j < d.len() {
                        assert(sizes[j] == d[j]);
                    }
                }
            },
        }
    }
}

/// Every area of a size fits in an `i32`.
pub open spec fn areas_fit(sizes: Seq<PhotoSizeInfo>) -> bool {
    forall|i: int| 0 <= i < sizes.len() ==> match #[trigger] sizes[i] {
        PhotoSizeInfo::Size { w, h, .. } => i32::MIN <= w * h <= i32::MAX,
        PhotoSizeInfo::Progressive { w, h, .. } => i32::MIN <= w * h <= i32::MAX,
        PhotoSizeInfo::Other => true,
    }
}

/// The link to a photo in its largest size.
pub open spec fn photo_link(self_id: i64, raw: RawPhoto) -> Option<Seq<char>> {
    match largest_size(raw.sizes@) {
        None => None,
        Some((kind, _)) => Some(
            internal_link(
                self_id,
                FileIdView::Photo {
                    id: raw.id,
                    access_hash: raw.access_hash,
                    file_reference: raw.file_reference@,
                    thumb_size: vstd::utf8::encode_utf8(kind),
                },
            ),
        ),
    }
}

/// The link to a document.
pub open spec fn document_link(self_id: i64, raw: RawDocument) -> Seq<char> {
    internal_link(
        self_id,
        FileIdView::Document { id: raw.id, access_hash: raw.access_hash, file_reference: raw.file_reference@ },
    )
}

fn link_of(self_id: i64, f: &FileId) -> (s: String)
    requires
        file_id_bytes(f.view()).len() <= usize::MAX / 2,
    ensures
        s@ == internal_link(self_id, f.view()),
{
    let mut out: Vec<char> = Vec::new();
    append_str(&mut out, "internal:telegram/");
    push_i64_decimal(&mut out, self_id);
    append_str(&mut out, "/");
    let mut s = string_of(out.as_slice());
    let enc = f.encode();
    push_str(&mut s, enc.as_str());
    s
}

fn peer_photo_link_exec(self_id: i64, dialog_id: i64, access_hash: Option<i64>, photo_id: Option<i64>) -> (r: Option<String>)
    ensures
        match photo_id {
            Some(p) => r matches Some(s) && s@ == internal_link(self_id, peer_photo_file(dialog_id, access_hash, p)),
            None => r is None,
        },
{
    match photo_id {
        None => None,
        Some(p) => {
            let f = FileId::PeerPhoto {
                peer_id: dialog_id,
                access_hash: match access_hash {
                    Some(h) => h,
                    None => 0,
                },
                photo_id: p,
            };
            Some(link_of(self_id, &f))
        },
    }
}

/// The link to the profile photo of a user; `None` where the user has none.
pub fn satori_link_from_tg_user_photo(self_id: i64, user: &UserInfo) -> (r: Option<String>)
    ensures
        opt_view(r) == user_photo_link(self_id, *user),
{
    peer_photo_link_exec(self_id, user.dialog_id, user.access_hash, user.photo_id)
}

/// The link to the photo of a group; `None` where the group has none.
pub fn satori_link_from_tg_group_photo(self_id: i64, group: &GroupInfo) -> (r: Option<String>)
    ensures
        opt_view(r) == group_photo_link(self_id, *group),
{
    peer_photo_link_exec(self_id, group.dialog_id, group.access_hash, group.photo_id)
}

/// The link to the photo of a channel; `None` where the channel has none.
pub fn satori_link_from_tg_channel_photo(self_id: i64, channel: &ChannelInfo) -> (r: Option<String>)
    ensures
        opt_view(r) == channel_photo_link(self_id, *channel),
{
    peer_photo_link_exec(self_id, channel.dialog_id, channel.access_hash, channel.photo_id)
}

/// The link to the photo of a peer; `None` where it has none.
pub fn satori_link_from_tg_peer_photo(self_id: i64, peer: &PeerInfo) -> (r: Option<String>)
    ensures
        opt_view(r) == peer_photo_link(self_id, *peer),
{
    match peer {
        PeerInfo::User(u) => satori_link_from_tg_user_photo(self_id, u),
        PeerInfo::Group(g) => satori_link_from_tg_group_photo(self_id, g),
        PeerInfo::Channel(c) => satori_link_from_tg_channel_photo(self_id, c),
    }
}

fn bytes_to_vec(b: &[u8]) -> (v: Vec<u8>)
    ensures
        v@ == b@,
{
    let mut v: Vec<u8> = Vec::new();
    let mut i: usize = 0;
    while i < b.len()
        invariant
            i <= b.len(),
            v@ == b@.take(i as int),
        decreases b.len() - i,
    {
        v.push(b[i]);
        assert(b@.take(i + 1) == b@.take(i as int).push(b@[i as int]));
        i = i + 1;
    }
    assert(b@.take(b.len() as int) == b@);
    v
}

/// The link to a photo in its largest size; `None` where it has no size that the link
/// reads.
pub fn satori_link_from_tg_photo(self_id: i64, photo: &RawPhoto) -> (r: Option<String>)
    requires
        areas_fit(photo.sizes@),
        photo.file_reference.len() <= usize::MAX / 8,
        forall|i: int| 0 <= i < photo.sizes.len() ==> match #[trigger] photo.sizes@[i] {
            PhotoSizeInfo::Size { kind, .. } => vstd::utf8::encode_utf8(kind@).len() <= usize::MAX / 8,
            PhotoSizeInfo::Progressive { kind, .. } => vstd::utf8::encode_utf8(kind@).len() <= usize::MAX / 8,
            PhotoSizeInfo::Other => true,
        },
    ensures
        opt_view(r) == photo_link(self_id, *photo),
{
    let mut best: Option<(usize, i32)> = None;
    let mut i: usize = 0;
    while i < photo.sizes.len()
        invariant
            i <= photo.sizes.len(),
            areas_fit(photo.sizes@),
            match (best, largest_size(photo.sizes@.take(i as int))) {
                (None, None) => true,
                (Some((j, a)), Some((k, sa))) => j < i && a == sa && size_area(photo.sizes@[j as int]) == Some((k, sa)),
                _ => false,
            },
        decreases photo.sizes.len() - i,
    {
        assert(photo.sizes@.take(i + 1).drop_last() == photo.sizes@.take(i as int));
        assert(photo.sizes@.take(i + 1).last() == photo.sizes@[i as int]);
        let area: Option<i32> = match &photo.sizes[i] {
            PhotoSizeInfo::Size { w, h, .. } => Some(*w * *h),
            PhotoSizeInfo::Progressive { w, h, .. } => Some(*w * *h),
            PhotoSizeInfo::Other => None,
        };
        match area {
            None => {},
            Some(a) => match best {
                None => {
                    best = Some((i, a));
                },
                Some((_, pa)) => {
                    if a >= pa {
                        best = Some((i, a));
                    }
                },
            },
        }
        i = i + 1;
    }
    assert(photo.sizes@.take(photo.sizes.len() as int) == photo.sizes@);
    match best {
        None => None,
        Some((j, _)) => {
            let kind = match &photo.sizes[j] {
                PhotoSizeInfo::Size { kind, .. } => kind,
                PhotoSizeInfo::Progressive { kind, .. } => kind,
                PhotoSizeInfo::Other => {
                    return None;
                },
            };
            let f = FileId::Photo {
                id: photo.id,
                access_hash: photo.access_hash,
                file_reference: bytes_to_vec(photo.file_reference.as_slice()),
                thumb_size: bytes_to_vec(kind.as_str().as_bytes()),
            };
            Some(link_of(self_id, &f))
        },
    }
}

/// The link to a document.
pub fn satori_link_from_tg_document(self_id: i64, document: &RawDocument) -> (r: String)
    requires
        document.file_reference.len() <= usize::MAX / 4,
    ensures
        r@ == document_link(self_id, *document),
{
    let f = FileId::Document {
        id: document.id,
        access_hash: document.access_hash,
        file_reference: bytes_to_vec(document.file_reference.as_slice()),
    };
    link_of(self_id, &f)
}


/// The value of a Satori user.
pub struct UserView {
    pub id: Seq<char>,
    pub name: Option<Seq<char>>,
    pub nick: Option<Seq<char>>,
    pub avatar: Option<Seq<char>>,
    pub is_bot: Option<bool>,
}

impl User {
    pub open spec fn view(&self) -> UserView {
        UserView {
            id: self.id@,
            name: opt_view(self.name),
            nick: opt_view(self.nick),
            avatar: opt_view(self.avatar),
            is_bot: self.is_bot,
        }
    }
}

/// The value of a Satori guild.
pub struct GuildView {
    pub id: Seq<char>,
    pub name: Option<Seq<char>>,
    pub avatar: Option<Seq<char>>,
}

impl Guild {
    pub open spec fn view(&self) -> GuildView {
        GuildView { id: self.id@, name: opt_view(self.name), avatar: opt_view(self.avatar) }
    }
}

/// The value of a Satori channel.
pub struct ChannelView {
    pub id: Seq<char>,
    pub channel_type: ChannelType,
    pub name: Option<Seq<char>>,
    pub parent_id: Option<Seq<char>>,
}

impl Channel {
    pub open spec fn view(&self) -> ChannelView {
        ChannelView {
            id: self.id@,
            channel_type: self.channel_type,
            name: opt_view(self.name),
            parent_id: opt_view(self.parent_id),
        }
    }
}

/// The value of a Satori login.
pub struct LoginView {
    pub sn: u8,
    pub platform: Option<Seq<char>>,
    pub user: Option<UserView>,
    pub status: LoginStatus,
    pub adapter: Seq<char>,
    pub features: Option<Seq<String>>,
}

impl Login {
    pub open spec fn view(&self) -> LoginView {
        LoginView {
            sn: self.sn,
            platform: opt_view(self.platform),
            user: match self.user {
                Some(u) => Some(u.view()),
                None => None,
            },
            status: self.status,
            adapter: self.adapter@,
            features: match self.features {
                Some(f) => Some(f@),
                None => None,
            },
        }
    }
}

/// The value of a Satori role.
pub struct RoleView {
    pub id: Seq<char>,
    pub name: Option<Seq<char>>,
}

impl Role {
    pub open spec fn view(&self) -> RoleView {
        RoleView { id: self.id@, name: opt_view(self.name) }
    }
}

/// The value of a Satori guild member.
pub struct MemberView {
    pub user: Option<UserView>,
    pub nick: Option<Seq<char>>,
    pub avatar: Option<Seq<char>>,
    pub joined_at: Option<i64>,
    pub roles: Option<Seq<RoleView>>,
}

impl Member {
    pub open spec fn view(&self) -> MemberView {
        MemberView {
            user: match self.user {
                Some(u) => Some(u.view()),
                None => None,
            },
            nick: opt_view(self.nick),
            avatar: opt_view(self.avatar),
            joined_at: self.joined_at,
            roles: match self.roles {
                Some(rs) => Some(rs@.map_values(|r: Role| r.view())),
                None => None,
            },
        }
    }
}

/// The value of a Satori message.
pub struct MessageView {
    pub id: Seq<char>,
    pub content: Seq<char>,
    pub channel: Option<ChannelView>,
    pub guild: Option<GuildView>,
    pub member: Option<MemberView>,
    pub user: Option<UserView>,
    pub created_at: Option<i64>,
    pub updated_at: Option<i64>,
}

impl Message {
    pub open spec fn view(&self) -> MessageView {
        MessageView {
            id: self.id@,
            content: self.content@,
            channel: match self.channel {
                Some(c) => Some(c.view()),
                None => None,
            },
            guild: match self.guild {
                Some(g) => Some(g.view()),
                None => None,
            },
            member: match self.member {
                Some(m) => Some(m.view()),
                None => None,
            },
            user: match self.user {
                Some(u) => Some(u.view()),
                None => None,
            },
            created_at: self.created_at,
            updated_at: self.updated_at,
        }
    }
}

/// The Satori user for a Telegram user.
pub open spec fn user_from_user(self_id: i64, u: UserInfo) -> UserView {
    UserView {
        id: int_decimal(u.dialog_id as int),
        name: opt_view(u.username),
        nick: Some(u.full_name@),
        avatar: user_photo_link(self_id, u),
        is_bot: Some(u.is_bot),
    }
}

/// The name of a peer as a Satori user: the full name of a user, the title of a group
/// (empty where it has none) or of a channel.
pub open spec fn peer_nick(p: PeerInfo) -> Seq<char> {
    match p {
        PeerInfo::User(u) => u.full_name@,
        PeerInfo::Group(g) => match g.title {
            Some(t) => t@,
            None => Seq::empty(),
        },
        PeerInfo::Channel(c) => c.title@,
    }
}

/// The Satori user for a Telegram peer (groups and channels act as users that are no bots).
pub open spec fn user_from_peer(self_id: i64, p: PeerInfo) -> UserView {
    UserView {
        id: int_decimal(p.dialog_id() as int),
        name: opt_view(p.username()),
        nick: Some(peer_nick(p)),
        avatar: peer_photo_link(self_id, p),
        is_bot: Some(
            match p {
                PeerInfo::User(u) => u.is_bot,
                _ => false,
            },
        ),
    }
}

/// The Satori guild for a Telegram peer: none for a user.
pub open spec fn guild_from_peer(self_id: i64, p: PeerInfo) -> Option<GuildView> {
    match p {
        PeerInfo::User(_) => None,
        PeerInfo::Group(g) => Some(
            GuildView {
                id: int_decimal(g.dialog_id as int),
                name: Some(peer_nick(p)),
                avatar: group_photo_link(self_id, g),
            },
        ),
        PeerInfo::Channel(c) => Some(
            GuildView {
                id: int_decimal(c.dialog_id as int),
                name: Some(c.title@),
                avatar: channel_photo_link(self_id, c),
            },
        ),
    }
}

/// The Satori login for the account of a Telegram user.
pub open spec fn login_from_user(u: UserInfo) -> LoginView {
    LoginView {
        sn: 0,
        platform: Some("telegram"@),
        user: Some(user_from_user(u.dialog_id, u)),
        status: LoginStatus::Online,
        adapter: "mtproto"@,
        features: Some(Seq::empty()),
    }
}

/// The id of a Satori channel: the dialog id, and the thread after `:` where there is one.
pub open spec fn channel_id_text(chat_id: i64, thread_id: Option<i32>) -> Seq<char> {
    match thread_id {
        Some(t) => int_decimal(chat_id as int) + seq![':'] + int_decimal(t as int),
        None => int_decimal(chat_id as int),
    }
}

/// The Satori channel for a Telegram peer (and a forum thread): direct for a user, text
/// otherwise.
pub open spec fn channel_from_peer(p: PeerInfo, thread_id: Option<i32>) -> ChannelView {
    ChannelView {
        id: channel_id_text(p.dialog_id(), thread_id),
        channel_type: match p {
            PeerInfo::User(_) => ChannelType::Direct,
            _ => ChannelType::Text,
        },
        name: match p {
            PeerInfo::User(u) => Some(u.full_name@),
            PeerInfo::Group(g) => opt_view(g.title),
            PeerInfo::Channel(c) => Some(c.title@),
        },
        parent_id: None,
    }
}

fn decimal(n: i64) -> (s: String)
    ensures
        s@ == int_decimal(n as int),
{
    crate::text::i64_to_string(n)
}

fn clone_opt(o: &Option<String>) -> (r: Option<String>)
    ensures
        opt_view(r) == opt_view(*o),
{
    match o {
        Some(s) => Some(s.clone()),
        None => None,
    }
}

/// The Satori user for a Telegram user.
pub fn satori_user_from_tg_user(self_id: i64, user: &UserInfo) -> (r: User)
    ensures
        r.view() == user_from_user(self_id, *user),
{
    User {
        id: decimal(user.dialog_id),
        name: clone_opt(&user.username),
        nick: Some(user.full_name.clone()),
        avatar: satori_link_from_tg_user_photo(self_id, user),
        is_bot: Some(user.is_bot),
    }
}

fn peer_nick_exec(peer: &PeerInfo) -> (r: String)
    ensures
        r@ == peer_nick(*peer),
{
    match peer {
        PeerInfo::User(u) => u.full_name.clone(),
        PeerInfo::Group(g) => match &g.title {
            Some(t) => t.clone(),
            None => String::new(),
        },
        PeerInfo::Channel(c) => c.title.clone(),
    }
}

/// The Satori user for a Telegram peer.
pub fn satori_user_from_tg_peer(self_id: i64, peer: &PeerInfo) -> (r: User)
    ensures
        r.view() == user_from_peer(self_id, *peer),
{
    let (dialog_id, username, is_bot) = match peer {
        PeerInfo::User(u) => (u.dialog_id, &u.username, u.is_bot),
        PeerInfo::Group(g) => (g.dialog_id, &g.username, false),
        PeerInfo::Channel(c) => (c.dialog_id, &c.username, false),
    };
    User {
        id: decimal(dialog_id),
        name: clone_opt(username),
        nick: Some(peer_nick_exec(peer)),
        avatar: satori_link_from_tg_peer_photo(self_id, peer),
        is_bot: Some(is_bot),
    }
}

/// The Satori guild for a Telegram peer; `None` for a user.
pub fn satori_guild_from_tg_peer(self_id: i64, peer: &PeerInfo) -> (r: Option<Guild>)
    ensures
        match r {
            Some(g) => guild_from_peer(self_id, *peer) == Some(g.view()),
            None => guild_from_peer(self_id, *peer) is None,
        },
{
    match peer {
        PeerInfo::User(_) => None,
        PeerInfo::Group(g) => Some(
            Guild {
                id: decimal(g.dialog_id),
                name: Some(peer_nick_exec(peer)),
                avatar: satori_link_from_tg_group_photo(self_id, g),
            },
        ),
        PeerInfo::Channel(c) => Some(
            Guild {
                id: decimal(c.dialog_id),
                name: Some(c.title.clone()),
                avatar: satori_link_from_tg_channel_photo(self_id, c),
            },
        ),
    }
}

/// The Satori login for the account of a Telegram user.
pub fn satori_login_from_tg_user(user: &UserInfo) -> (r: Login)
    ensures
        r.view() == login_from_user(*user),
{
    let features: Vec<String> = Vec::new();
    Login {
        sn: 0,
        platform: Some("telegram".to_owned()),
        user: Some(satori_user_from_tg_user(user.dialog_id, user)),
        status: LoginStatus::Online,
        adapter: "mtproto".to_owned(),
        features: Some(features),
    }
}

/// The id of a Satori channel.
pub fn channel_id(chat_id: i64, thread_id: Option<i32>) -> (s: String)
    ensures
        s@ == channel_id_text(chat_id, thread_id),
{
    let mut out: Vec<char> = Vec::new();
    push_i64_decimal(&mut out, chat_id);
    match thread_id {
        Some(t) => {
            out.push(':');
            push_i64_decimal(&mut out, t as i64);
        },
        None => {},
    }
    string_of(out.as_slice())
}

/// The Satori channel for a Telegram peer and a forum thread.
pub fn satori_channel_from_tg_peer(peer: &PeerInfo, thread_id: Option<i32>) -> (r: Channel)
    ensures
        r.view() == channel_from_peer(*peer, thread_id),
{
    let (dialog_id, channel_type, name) = match peer {
        PeerInfo::User(u) => (u.dialog_id, ChannelType::Direct, Some(u.full_name.clone())),
        PeerInfo::Group(g) => (g.dialog_id, ChannelType::Text, clone_opt(&g.title)),
        PeerInfo::Channel(c) => (c.dialog_id, ChannelType::Text, Some(c.title.clone())),
    };
    Channel { id: channel_id(dialog_id, thread_id), channel_type, name, parent_id: None }
}

/// Whom a channel id names: a dialog id, or a username to look up.
pub enum PeerTarget {
    Id(i64),
    Username(String),
}

pub open spec fn target_view(t: PeerTarget) -> (Option<i64>, Seq<char>) {
    match t {
        PeerTarget::Id(n) => (Some(n), Seq::empty()),
        PeerTarget::Username(u) => (None, u@),
    }
}

/// The parts of a channel id: what comes before the first `:` names the peer (a dialog id
/// where it reads as an `i64`, else a username); what comes after is the thread.
pub open spec fn split_channel_id_spec(s: Seq<char>) -> ((Option<i64>, Seq<char>), Option<Seq<char>>) {
    let (peer, thread) = match find_char(s, 0, ':') {
        Some(i) => (s.take(i), Some(s.skip(i + 1))),
        None => (s, None),
    };
    (
        match spec_parse_i64(peer) {
            Some(n) => (Some(n), Seq::empty()),
            None => (None, peer),
        },
        thread,
    )
}

/// Splits a channel id into the peer it names and its thread.
pub fn split_channel_id(channel_id: &str) -> (r: (PeerTarget, Option<String>))
    ensures
        (target_view(r.0), opt_view(r.1)) == split_channel_id_spec(channel_id@),
{
    let cs = chars_of(channel_id);
    let mut i: usize = 0;
    while i < cs.len() && cs[i] != ':'
        invariant
            i <= cs.len(),
            find_char(cs@, 0, ':') == find_char(cs@, i as int, ':'),
        decreases cs.len() - i,
    {
        i = i + 1;
    }
    let (peer, thread): (&[char], Option<String>) = if i < cs.len() {
        let rest = &cs.as_slice()[i + 1..cs.len()];
        assert(rest@ == cs@.skip(i + 1));
        (&cs.as_slice()[0..i], Some(string_of(rest)))
    } else {
        (cs.as_slice(), None)
    };
    proof {
        if i < cs.len() {
            assert(peer@ == cs@.take(i as int));
        } else {
            assert(peer@ == cs@);
        }
    }
    let target = match parse_i64(peer) {
        Some(n) => PeerTarget::Id(n),
        None => PeerTarget::Username(string_of(peer)),
    };
    (target, thread)
}

/// The thread id of a channel id; an error (400) where it does not read as an `i32`.
pub fn parse_thread_id(thread: &str) -> (r: Result<i32, WebError>)
    ensures
        match r {
            Ok(t) => spec_parse_i32(thread@) == Some(t),
            Err(e) => spec_parse_i32(thread@) is None && e.code == BAD_REQUEST && e.reason@
                == "Thread ID invalid."@,
        },
{
    let cs = chars_of(thread);
    match parse_i32(cs.as_slice()) {
        Some(t) => Ok(t),
        None => Err(WebError::new(BAD_REQUEST, "Thread ID invalid.".to_owned())),
    }
}

/// The peer and the raw thread of a channel id: the dialog id must name a peer (else an
/// error 400, `Peer ID invalid.`); a username is kept to be looked up.
pub open spec fn channel_target_spec(s: Seq<char>) -> Option<((Option<i64>, Seq<char>), Option<Seq<char>>)> {
    let (target, thread) = split_channel_id_spec(s);
    match target.0 {
        Some(n) => if dialog_peer(n) is Some {
            Some((target, thread))
        } else {
            None
        },
        None => Some((target, thread)),
    }
}

/// Reads a channel id into the peer it names and its raw thread id, checking that a
/// dialog id names a peer.
pub fn channel_target(channel_id: &str) -> (r: Result<(PeerTarget, Option<String>), WebError>)
    ensures
        match r {
            Ok((t, th)) => channel_target_spec(channel_id@) == Some((target_view(t), opt_view(th))),
            Err(e) => channel_target_spec(channel_id@) is None && e.code == BAD_REQUEST && e.reason@
                == "Peer ID invalid."@,
        },
{
    let (target, thread) = split_channel_id(channel_id);
    match target {
        PeerTarget::Id(n) => match peer_of_dialog_id(n) {
            Some(_) => Ok((PeerTarget::Id(n), thread)),
            None => Err(WebError::new(BAD_REQUEST, "Peer ID invalid.".to_owned())),
        },
        PeerTarget::Username(u) => Ok((PeerTarget::Username(u), thread)),
    }
}

/// The user a `user.get` request names: a dialog id that names a peer, or a username; an
/// error 400 (`Invalid user ID.`) for a number that names no peer.
pub fn user_target(user_id: &str) -> (r: Result<PeerTarget, WebError>)
    ensures
        match spec_parse_i64(user_id@) {
            Some(n) => if dialog_peer(n) is Some {
                r matches Ok(t) && target_view(t) == (Some(n), Seq::<char>::empty())
            } else {
                r matches Err(e) && e.code == BAD_REQUEST && e.reason@ == "Invalid user ID."@
            },
            None => r matches Ok(t) && target_view(t) == (None::<i64>, user_id@),
        },
{
    let cs = chars_of(user_id);
    match parse_i64(cs.as_slice()) {
        Some(n) => match peer_of_dialog_id(n) {
            Some(_) => Ok(PeerTarget::Id(n)),
            None => Err(WebError::new(BAD_REQUEST, "Invalid user ID.".to_owned())),
        },
        None => Ok(PeerTarget::Username(user_id.to_owned())),
    }
}

/// The user a `user.channel.create` request names: a number is taken as a dialog id as it
/// is, anything else as a username.
pub fn direct_target(user_id: &str) -> (r: PeerTarget)
    ensures
        target_view(r) == match spec_parse_i64(user_id@) {
            Some(n) => (Some(n), Seq::<char>::empty()),
            None => (None::<i64>, user_id@),
        },
{
    let cs = chars_of(user_id);
    match parse_i64(cs.as_slice()) {
        Some(n) => PeerTarget::Id(n),
        None => PeerTarget::Username(user_id.to_owned()),
    }
}

/// The direct channel with the peer of a dialog id.
pub fn direct_channel(dialog_id: i64) -> (r: Channel)
    ensures
        r.view() == (ChannelView {
            id: int_decimal(dialog_id as int),
            channel_type: ChannelType::Direct,
            name: None,
            parent_id: None,
        }),
{
    Channel { id: crate::text::i64_to_string(dialog_id), channel_type: ChannelType::Direct, name: None, parent_id: None }
}

/// The id of a message to update; an error (400, `Bad message ID.`) where it does not read
/// as an `i32`.
pub fn parse_message_id(text: &str) -> (r: Result<i32, WebError>)
    ensures
        match r {
            Ok(n) => spec_parse_i32(text@) == Some(n),
            Err(e) => spec_parse_i32(text@) is None && e.code == BAD_REQUEST && e.reason@ == "Bad message ID."@,
        },
{
    let cs = chars_of(text);
    match parse_i32(cs.as_slice()) {
        Some(n) => Ok(n),
        None => Err(WebError::new(BAD_REQUEST, "Bad message ID.".to_owned())),
    }
}

/// A user seen as a peer is the same Satori user as the user itself: its id is its dialog
/// id, its name its username, its nick its full name, and it is a bot exactly when the
/// Telegram user is one.  Groups and channels are never bots.
pub proof fn lemma_peer_user_is_user(self_id: i64, u: UserInfo, p: PeerInfo)
    ensures
        user_from_peer(self_id, PeerInfo::User(u)) == user_from_user(self_id, u),
        user_from_user(self_id, u).is_bot == Some(u.is_bot),
        user_from_user(self_id, u).id == int_decimal(u.dialog_id as int),
        user_from_user(self_id, u).name == opt_view(u.username),
        user_from_user(self_id, u).nick == Some(u.full_name@),
        !(p is User) ==> user_from_peer(self_id, p).is_bot == Some(false),
{
}

/// How the views of one peer agree: only a user has no guild, and only its channel is
/// direct; a group or a channel is a guild whose id is its user id and the id of its
/// channel outside threads; the guild, the channel and the user of a peer carry the same
/// name, its full name for a user; a login is its account's user, on Telegram, online.
pub proof fn lemma_peer_views_agree(self_id: i64, p: PeerInfo, t: Option<i32>, u: UserInfo)
    ensures
        guild_from_peer(self_id, p) is None <==> p is User,
        channel_from_peer(p, t).channel_type == ChannelType::Direct <==> p is User,
        channel_from_peer(p, t).parent_id is None,
        !(p is User) ==> guild_from_peer(self_id, p).unwrap().id == channel_from_peer(p, None).id
            && guild_from_peer(self_id, p).unwrap().id == user_from_peer(self_id, p).id
            && guild_from_peer(self_id, p).unwrap().name == Some(peer_nick(p))
            && guild_from_peer(self_id, p).unwrap().avatar == user_from_peer(self_id, p).avatar,
        !(p is Group) ==> channel_from_peer(p, t).name == user_from_peer(self_id, p).nick,
        channel_from_peer(p, t).id == channel_id_text(p.dialog_id(), t),
        user_from_peer(self_id, p).id == int_decimal(p.dialog_id() as int),
        login_from_user(u).user == Some(user_from_user(u.dialog_id, u)),
        login_from_user(u).status == LoginStatus::Online,
        login_from_user(u).platform == Some("telegram"@),
{
}

/// A channel id reads back as the dialog id and the thread it was written from.
pub proof fn lemma_channel_id_reads_back(chat_id: i64, thread_id: Option<i32>)
    ensures
        split_channel_id_spec(channel_id_text(chat_id, thread_id)) == (
            (Some(chat_id), Seq::<char>::empty()),
            match thread_id {
                Some(t) => Some(int_decimal(t as int)),
                None => None,
            },
        ),
        thread_id matches Some(t) ==> spec_parse_i32(int_decimal(t as int)) == Some(t),
{
    let d = int_decimal(chat_id as int);
    crate::text::lemma_parse_i64_decimal(chat_id);
    crate::text::lemma_int_decimal_chars(chat_id as int);
    lemma_no_colon(d, 0);
    match thread_id {
        Some(t) => {
            crate::text::lemma_parse_i32_decimal(t);
            let s = d + seq![':'] + int_decimal(t as int);
            lemma_find_colon_after(s, d.len() as int);
            assert(s.take(d.len() as int) == d);
            assert(s.skip(d.len() as int + 1) == int_decimal(t as int));
        },
        None => {},
    }
}

proof fn lemma_no_colon(d: Seq<char>, k: int)
    requires
        0 <= k <= d.len(),
        forall|j: int| 0 <= j < d.len() ==> (#[trigger] d[j] == '-' || crate::text::is_ascii_digit(d[j])),
    ensures
        find_char(d, k, ':') is None,
    decreases d.len() - k,
{
    if k < d.len() {
        assert(d[k] != ':');
        lemma_no_colon(d, k + 1);
    }
}

proof fn lemma_find_colon_after(s: Seq<char>, n: int)
    requires
        0 <= n < s.len(),
        s[n] == ':',
        forall|j: int| 0 <= j < n ==> (#[trigger] s[j] == '-' || crate::text::is_ascii_digit(s[j])),
    ensures
        find_char(s, 0, ':') == Some(n),
{
    lemma_find_colon_from(s, n, 0);
}

proof fn lemma_find_colon_from(s: Seq<char>, n: int, k: int)
    requires
        0 <= k <= n < s.len(),
        s[n] == ':',
        forall|j: int| 0 <= j < n ==> (#[trigger] s[j] == '-' || crate::text::is_ascii_digit(s[j])),
    ensures
        find_char(s, k, ':') == Some(n),
    decreases n - k,
{
    if k < n {
        assert(s[k] != ':');
        lemma_find_colon_from(s, n, k + 1);
    }
}

} // verus!
