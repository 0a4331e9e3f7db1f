use vstd::prelude::*;

use crate::convert::{
    login_from_user, opt_view, satori_login_from_tg_user, satori_user_from_tg_peer, user_from_peer,
    ChannelView, GuildView, LoginView, MemberView, MessageView, RoleView, UserView,
};
use crate::element::{dump, elements_view, markup_views, ElementView};
use crate::message_receive::{
    message_elements, message_fits, message_view_of, satori_elements_from_tg_message,
    satori_message_from_tg_message,
};
use crate::telegram::{MessageInfo, PeerInfo, UserInfo};
use crate::text::push_str;
use crate::types::{Argv, Button, Channel, Event, Guild, Login, Member, Message, Role, User};

verus! {

/// The value of the arguments of a command.
pub struct ArgvView {
    pub name: Seq<char>,
    pub arguments: Seq<Seq<char>>,
    pub options: Seq<(Seq<char>, Seq<char>)>,
}

impl Argv {
    pub open spec fn view(&self) -> ArgvView {
        ArgvView {
            name: self.name@,
            arguments: self.arguments@.map_values(|a: String| a@),
            options: self.options@.map_values(|o: (String, String)| (o.0@, o.1@)),
        }
    }
}

/// The value of a Satori event.
pub struct EventView {
    pub sn: u32,
    pub event_type: Seq<char>,
    pub timestamp: Option<i64>,
    pub login: LoginView,
    pub argv: Option<ArgvView>,
    pub button: Option<Seq<char>>,
    pub channel: Option<ChannelView>,
    pub guild: Option<GuildView>,
    pub member: Option<MemberView>,
    pub message: Option<MessageView>,
    pub operator: Option<UserView>,
    pub role: Option<RoleView>,
    pub user: Option<UserView>,
}

impl Event {
    pub open spec fn view(&self) -> EventView {
        EventView {
            sn: self.sn,
            event_type: self.event_type@,
            timestamp: self.timestamp,
            login: self.login.view(),
            argv: match self.argv {
                Some(a) => Some(a.view()),
                None => None,
            },
            button: match self.button {
                Some(b) => Some(b.id@),
                None => None,
            },
            channel: match self.channel {
                Some(c) => Some(c.view()),
                None => None,
            },
            guild: match self.guild {
                Some(g) => Some(g.view()),
                None => None,
            },
            member: match self.member {
                Some(m) => Some(m.view()),
                None => None,
            },
            message: match self.message {
                Some(m) => Some(m.view()),
                None => None,
            },
            operator: match self.operator {
                Some(u) => Some(u.view()),
                None => None,
            },
            role: match self.role {
                Some(r) => Some(r.view()),
                None => None,
            },
            user: match self.user {
                Some(u) => Some(u.view()),
                None => None,
            },
        }
    }
}

fn dup_str(o: &Option<String>) -> (r: Option<String>)
    ensures
        opt_view(r) == opt_view(*o),
{
    match o {
        Some(s) => Some(s.clone()),
        None => None,
    }
}

fn dup_strings(v: &Vec<String>) -> (r: Vec<String>)
    ensures
        r@ == v@,
{
    let mut r: Vec<String> = Vec::new();
    let mut i: usize = 0;
    while i < v.len()
        invariant
            i <= v.len(),
            r@ == v@.take(i as int),
        decreases v.len() - i,
    {
        r.push(v[i].clone());
        assert(v@.take(i + 1) == v@.take(i as int).push(v@[i as int]));
        i = i + 1;
    }
    assert(v@.take(v.len() as int) == v@);
    r
}

impl User {
    /// A copy of the user.
    pub fn duplicate(&self) -> (r: User)
        ensures
            r.view() == self.view(),
    {
        User {
            id: self.id.clone(),
            name: dup_str(&self.name),
            nick: dup_str(&self.nick),
            avatar: dup_str(&self.avatar),
            is_bot: self.is_bot,
        }
    }
}

fn dup_user(o: &Option<User>) -> (r: Option<User>)
    ensures
        match (r, *o) {
            (Some(a), Some(b)) => a.view() == b.view(),
            (None, None) => true,
            _ => false,
        },
{
    match o {
        Some(u) => Some(u.duplicate()),
        None => None,
    }
}

impl Channel {
    /// A copy of the channel.
    pub fn duplicate(&self) -> (r: Channel)
        ensures
            r.view() == self.view(),
    {
        Channel {
            id: self.id.clone(),
            channel_type: self.channel_type,
            name: dup_str(&self.name),
            parent_id: dup_str(&self.parent_id),
        }
    }
}

impl Guild {
    /// A copy of the guild.
    pub fn duplicate(&self) -> (r: Guild)
        ensures
            r.view() == self.view(),
    {
        Guild { id: self.id.clone(), name: dup_str(&self.name), avatar: dup_str(&self.avatar) }
    }
}

impl Role {
    /// A copy of the role.
    pub fn duplicate(&self) -> (r: Role)
        ensures
            r.view() == self.view(),
    {
        Role { id: self.id.clone(), name: dup_str(&self.name) }
    }
}

impl Member {
    /// A copy of the member.
    pub fn duplicate(&self) -> (r: Member)
        ensures
            r.view() == self.view(),
    {
        let roles = match &self.roles {
            Some(rs) => {
                let mut out: Vec<Role> = Vec::new();
                let mut i: usize = 0;
                while i < rs.len()
                    invariant
                        i <= rs.len(),
                        out@.len() == i,
                        forall|j: int| 0 <= j < i ==> (#[trigger] out@[j]).view() == rs@[j].view(),
                    decreases rs.len() - i,
                {
                    out.push(rs[i].duplicate());
                    i = i + 1;
                }
                assert(out@.map_values(|r: Role| r.view()) =~= rs@.map_values(|r: Role| r.view()));
                Some(out)
            },
            None => None,
        };
        Member {
            user: dup_user(&self.user),
            nick: dup_str(&self.nick),
            avatar: dup_str(&self.avatar),
            joined_at: self.joined_at,
            roles,
        }
    }
}

impl Login {
    /// A copy of the login.
    pub fn duplicate(&self) -> (r: Login)
        ensures
            r.view() == self.view(),
    {
        Login {
            sn: self.sn,
            platform: dup_str(&self.platform),
            user: dup_user(&self.user),
            status: self.status,
            adapter: self.adapter.clone(),
            features: match &self.features {
                Some(f) => Some(dup_strings(f)),
                None => None,
            },
        }
    }
}

impl Message {
    /// A copy of the message.
    pub fn duplicate(&self) -> (r: Message)
        ensures
            r.view() == self.view(),
    {
        Message {
            id: self.id.clone(),
            content: self.content.clone(),
            channel: match &self.channel {
                Some(c) => Some(c.duplicate()),
                None => None,
            },
            guild: match &self.guild {
                Some(g) => Some(g.duplicate()),
                None => None,
            },
            member: match &self.member {
                Some(m) => Some(m.duplicate()),
                None => None,
            },
            user: dup_user(&self.user),
            created_at: self.created_at,
            updated_at: self.updated_at,
        }
    }
}

impl Argv {
    /// A copy of the arguments.
    pub fn duplicate(&self) -> (r: Argv)
        ensures
            r.view() == self.view(),
    {
        let arguments = dup_strings(&self.arguments);
        let mut options: Vec<(String, String)> = Vec::new();
        let mut i: usize = 0;
        while i < self.options.len()
            invariant
                i <= self.options.len(),
                options@.len() == i,
                forall|j: int|
                    0 <= j < i ==> (#[trigger] options@[j]).0@ == self.options@[j].0@ && options@[j].1@
                        == self.options@[j].1@,
            decreases self.options.len() - i,
        {
            let (k, v) = (self.options[i].0.clone(), self.options[i].1.clone());
            options.push((k, v));
            i = i + 1;
        }
        assert(options@.map_values(|o: (String, String)| (o.0@, o.1@)) =~= self.options@.map_values(
            |o: (String, String)| (o.0@, o.1@),
        ));
        Argv { name: self.name.clone(), arguments, options }
    }
}

impl Event {
    /// A copy of the event.
    pub fn duplicate(&self) -> (r: Event)
        ensures
            r.view() == self.view(),
    {
        Event {
            sn: self.sn,
            event_type: self.event_type.clone(),
            timestamp: self.timestamp,
            login: self.login.duplicate(),
            argv: match &self.argv {
                Some(a) => Some(a.duplicate()),
                None => None,
            },
            button: match &self.button {
                Some(b) => Some(Button { id: b.id.clone() }),
                None => None,
            },
            channel: match &self.channel {
                Some(c) => Some(c.duplicate()),
                None => None,
            },
            guild: match &self.guild {
                Some(g) => Some(g.duplicate()),
                None => None,
            },
            member: match &self.member {
                Some(m) => Some(m.duplicate()),
                None => None,
            },
            message: match &self.message {
                Some(m) => Some(m.duplicate()),
                None => None,
            },
            operator: dup_user(&self.operator),
            role: match &self.role {
                Some(r) => Some(r.duplicate()),
                None => None,
            },
            user: dup_user(&self.user),
        }
    }
}


/// The event of a new message.
pub open spec fn message_event_view(login: UserInfo, msg: MessageView) -> EventView {
    EventView {
        sn: 0,
        event_type: "message-created"@,
        timestamp: msg.created_at,
        login: login_from_user(login),
        argv: None,
        button: None,
        channel: msg.channel,
        guild: msg.guild,
        member: msg.member,
        message: Some(msg),
        operator: None,
        role: None,
        user: msg.user,
    }
}

fn message_event(login: &UserInfo, msg: Message) -> (r: Event)
    ensures
        r.view() == message_event_view(*login, msg.view()),
{
    let channel = match &msg.channel {
        Some(c) => Some(c.duplicate()),
        None => None,
    };
    let guild = match &msg.guild {
        Some(g) => Some(g.duplicate()),
        None => None,
    };
    let member = match &msg.member {
        Some(m) => Some(m.duplicate()),
        None => None,
    };
    let user = dup_user(&msg.user);
    Event {
        sn: 0,
        event_type: "message-created".to_owned(),
        timestamp: msg.created_at,
        login: satori_login_from_tg_user(login),
        argv: None,
        button: None,
        channel,
        guild,
        member,
        message: Some(msg),
        operator: None,
        role: None,
        user,
    }
}

/// The `message-created` event for a Telegram message received by the account `login`:
/// the message, with its channel, guild, member and user, at the time it was sent.
pub fn satori_event_from_tg_message(login: &UserInfo, message: &MessageInfo) -> (r: Event)
    requires
        message_fits(*message),
    ensures
        r.view() == message_event_view(*login, message_view_of(login.dialog_id, *message)),
{
    let msg = satori_message_from_tg_message(login.dialog_id, message);
    message_event(login, msg)
}

/// The elements of a sequence of messages, one after the other.
pub open spec fn messages_elements(self_id: i64, ms: Seq<MessageInfo>) -> Seq<ElementView>
    decreases ms.len(),
{
    if ms.len() == 0 {
        Seq::empty()
    } else {
        messages_elements(self_id, ms.drop_last()) + message_elements(self_id, ms.last())
    }
}

/// The Satori message for a media group: the first message, with the elements of the
/// others appended to its content.
pub open spec fn merged_message_view(self_id: i64, ms: Seq<MessageInfo>) -> MessageView {
    let first = message_view_of(self_id, ms[0]);
    MessageView {
        id: first.id,
        content: first.content + markup_views(messages_elements(self_id, ms.skip(1))),
        channel: first.channel,
        guild: first.guild,
        member: first.member,
        user: first.user,
        created_at: first.created_at,
        updated_at: first.updated_at,
    }
}

/// A received message and a pressed button both become events of the account's login,
/// carrying the message with its channel and guild: `message-created` at the message's
/// time, with the message's user; `interaction/button` with the button's id, by whoever
/// pressed it, with no time.
pub proof fn lemma_events_carry_message(
    login: UserInfo,
    m: MessageInfo,
    button_id: Seq<char>,
    peer: Option<PeerInfo>,
)
    ensures
        ({
            let msg = message_view_of(login.dialog_id, m);
            let ev = message_event_view(login, msg);
            let cb = callback_event_view(login, button_id, peer, msg);
            &&& ev.event_type == "message-created"@
            &&& ev.message == Some(msg)
            &&& ev.login == login_from_user(login)
            &&& ev.channel == msg.channel && ev.guild == msg.guild && ev.user == msg.user
            &&& ev.timestamp == Some(m.date)
            &&& ev.button is None && ev.argv is None
            &&& cb.event_type == "interaction/button"@
            &&& cb.button == Some(button_id)
            &&& cb.message == Some(msg)
            &&& cb.login == ev.login
            &&& cb.channel == ev.channel && cb.guild == ev.guild
            &&& cb.timestamp is None
            &&& cb.user == match peer {
                Some(p) => Some(user_from_peer(login.dialog_id, p)),
                None => None::<UserView>,
            }
        }),
{
}

/// Merging an album: a single message is merged as itself, and a message appended to
/// an album appends its markup to the merged content, after all the messages before it;
/// the id, channel, guild, member, user and times stay those of the first message.
pub proof fn lemma_album_content(self_id: i64, ms: Seq<MessageInfo>, m: MessageInfo)
    requires
        ms.len() > 0,
    ensures
        merged_message_view(self_id, seq![m]) == message_view_of(self_id, m),
        merged_message_view(self_id, ms.push(m)).content == merged_message_view(self_id, ms).content
            + markup_views(message_elements(self_id, m)),
        merged_message_view(self_id, ms.push(m)).id == message_view_of(self_id, ms[0]).id,
        merged_message_view(self_id, ms.push(m)).channel == message_view_of(self_id, ms[0]).channel,
        merged_message_view(self_id, ms.push(m)).user == message_view_of(self_id, ms[0]).user,
        merged_message_view(self_id, ms.push(m)).created_at == message_view_of(self_id, ms[0]).created_at,
{
    let one = seq![m];
    assert(one.skip(1) =~= Seq::<MessageInfo>::empty());
    assert(messages_elements(self_id, one.skip(1)) == Seq::<ElementView>::empty());
    let first = message_view_of(self_id, m);
    assert(first.content + Seq::<char>::empty() =~= first.content);
    let mv = merged_message_view(self_id, one);
    assert(mv == first);
    let all = ms.push(m);
    assert(all[0] == ms[0]);
    assert(all.skip(1) =~= ms.skip(1).push(m));
    assert(all.skip(1).drop_last() =~= ms.skip(1));
    assert(all.skip(1).last() == m);
    let a = messages_elements(self_id, ms.skip(1));
    let b = message_elements(self_id, m);
    crate::element::lemma_markup_concat(a, b);
    let c0 = message_view_of(self_id, ms[0]).content;
    assert(c0 + (markup_views(a) + markup_views(b)) =~= c0 + markup_views(a) + markup_views(b));
}

/// The `message-created` event for the messages of a media group, merged into one
/// message: the first, with the elements of the others appended in order.
pub fn satori_event_from_tg_messages(login: &UserInfo, messages: &[MessageInfo]) -> (r: Event)
    requires
        messages.len() > 0,
        forall|i: int| 0 <= i < messages.len() ==> message_fits(#[trigger] messages@[i]),
    ensures
        r.view() == message_event_view(*login, merged_message_view(login.dialog_id, messages@)),
{
    let self_id = login.dialog_id;
    let mut first = satori_message_from_tg_message(self_id, &messages[0]);
    let mut others: Vec<crate::element::Element> = Vec::new();
    let mut i: usize = 1;
    assert(messages@.subrange(1, 1) =~= Seq::<MessageInfo>::empty());
    while i < messages.len()
        invariant
            1 <= i <= messages.len(),
            forall|j: int| 0 <= j < messages.len() ==> message_fits(#[trigger] messages@[j]),
            elements_view(others@) == messages_elements(self_id, messages@.subrange(1, i as int)),
        decreases messages.len() - i,
    {
        let ghost before = others@;
        let mut more = satori_elements_from_tg_message(self_id, &messages[i]);
        let ghost m = more@;
        others.append(&mut more);
        proof {
            crate::element::lemma_elements_view_concat(before, m);
            let sub = messages@.subrange(1, i + 1);
            assert(sub.drop_last() =~= messages@.subrange(1, i as int));
            assert(sub.last() == messages@[i as int]);
        }
        i = i + 1;
    }
    assert(messages@.subrange(1, messages.len() as int) =~= messages@.skip(1));
    let tail = dump(others.as_slice());
    push_str(&mut first.content, tail.as_str());
    message_event(login, first)
}

/// A name for what `String::from_utf8_lossy` makes of some bytes.
pub uninterp spec fn utf8_lossy(bytes: Seq<u8>) -> Seq<char>;

/// Calls `String::from_utf8_lossy` (std), which reads bytes as UTF-8 and puts U+FFFD for
/// each invalid sequence.  Stated: the result is `utf8_lossy` of the bytes, and bytes that
/// are valid UTF-8 read as the text they encode.  Which text an invalid sequence gives is
/// left to the name.
#[verifier::external_body]
fn string_from_utf8_lossy(bytes: &[u8]) -> (r: String)
    ensures
        r@ == utf8_lossy(bytes@),
        vstd::utf8::valid_utf8(bytes@) ==> r@ == vstd::utf8::decode_utf8(bytes@),
{
    String::from_utf8_lossy(bytes).into_owned()
}

/// A pressed inline button, as far as this library reads it: its data and who pressed it.
pub struct CallbackInfo {
    pub data: Vec<u8>,
    pub peer: Option<PeerInfo>,
}

/// The event of a pressed button.  Its time is that at which the event is made.
pub open spec fn callback_event_view(login: UserInfo, button_id: Seq<char>, peer: Option<PeerInfo>, msg: MessageView) -> EventView {
    EventView {
        sn: 0,
        event_type: "interaction/button"@,
        timestamp: None,
        login: login_from_user(login),
        argv: None,
        button: Some(button_id),
        channel: msg.channel,
        guild: msg.guild,
        member: None,
        message: Some(msg),
        operator: None,
        role: None,
        user: match peer {
            Some(p) => Some(user_from_peer(login.dialog_id, p)),
            None => None,
        },
    }
}

/// The `interaction/button` event for a button with the id `button_id`, pressed by `peer`
/// on `message`.
pub fn callback_event(login: &UserInfo, button_id: String, peer: &Option<PeerInfo>, message: &MessageInfo) -> (r: Event)
    requires
        message_fits(*message),
    ensures
        r.view() == callback_event_view(*login, button_id@, *peer, message_view_of(login.dialog_id, *message)),
{
    let self_id = login.dialog_id;
    let msg = satori_message_from_tg_message(self_id, message);
    let user = match peer {
        Some(p) => Some(satori_user_from_tg_peer(self_id, p)),
        None => None,
    };
    let channel = match &msg.channel {
        Some(c) => Some(c.duplicate()),
        None => None,
    };
    let guild = match &msg.guild {
        Some(g) => Some(g.duplicate()),
        None => None,
    };
    Event {
        sn: 0,
        event_type: "interaction/button".to_owned(),
        timestamp: None,
        login: satori_login_from_tg_user(login),
        argv: None,
        button: Some(Button { id: button_id }),
        channel,
        guild,
        member: None,
        message: Some(msg),
        operator: None,
        role: None,
        user,
    }
}

/// The `interaction/button` event for a callback query on `message`: the button's id is
/// its data read as UTF-8 (invalid sequences replaced).
pub fn satori_event_from_tg_callback(login: &UserInfo, callback: &CallbackInfo, message: &MessageInfo) -> (r: Event)
    requires
        message_fits(*message),
    ensures
        r.view() == callback_event_view(
            *login,
            utf8_lossy(callback.data@),
            callback.peer,
            message_view_of(login.dialog_id, *message),
        ),
        vstd::utf8::valid_utf8(callback.data@) ==> r.view().button == Some(vstd::utf8::decode_utf8(callback.data@)),
{
    let id = string_from_utf8_lossy(callback.data.as_slice());
    callback_event(login, id, &callback.peer, message)
}

} // verus!
