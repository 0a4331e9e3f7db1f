use vstd::prelude::*;

verus! {

/// A Satori user.
pub struct User {
    pub id: String,
    pub name: Option<String>,
    pub nick: Option<String>,
    pub avatar: Option<String>,
    pub is_bot: Option<bool>,
}

/// The state of a login.
#[derive(Clone, Copy, PartialEq, Eq, Structural)]
pub enum LoginStatus {
    Offline,
    Online,
    Connect,
    Disconnect,
    Reconnect,
}

/// A Satori login: the account this bridge speaks as.
pub struct Login {
    pub sn: u8,
    pub platform: Option<String>,
    pub user: Option<User>,
    pub status: LoginStatus,
    pub adapter: String,
    pub features: Option<Vec<String>>,
}

/// The arguments of a command.
pub struct Argv {
    pub name: String,
    pub arguments: Vec<String>,
    pub options: Vec<(String, String)>,
}

/// A Satori button that was pressed.
pub struct Button {
    pub id: String,
}

/// The kind of a Satori channel.
#[derive(Clone, Copy, PartialEq, Eq, Structural)]
pub enum ChannelType {
    Text,
    Direct,
    Category,
    Voice,
}

/// A Satori channel.
pub struct Channel {
    pub id: String,
    pub channel_type: ChannelType,
    pub name: Option<String>,
    pub parent_id: Option<String>,
}

/// A Satori guild.
pub struct Guild {
    pub id: String,
    pub name: Option<String>,
    pub avatar: Option<String>,
}

/// A Satori role.
pub struct Role {
    pub id: String,
    pub name: Option<String>,
}

/// A member of a Satori guild (`joined_at` in whole seconds since the Unix epoch).
pub struct Member {
    pub user: Option<User>,
    pub nick: Option<String>,
    pub avatar: Option<String>,
    pub joined_at: Option<i64>,
    pub roles: Option<Vec<Role>>,
}

/// A Satori message (times in whole seconds since the Unix epoch).
pub struct Message {
    pub id: String,
    pub content: String,
    pub channel: Option<Channel>,
    pub guild: Option<Guild>,
    pub member: Option<Member>,
    pub user: Option<User>,
    pub created_at: Option<i64>,
    pub updated_at: Option<i64>,
}

/// A Satori event.  `timestamp` is in whole seconds since the Unix epoch; `None` stands
/// for the time at which the event is published.
pub struct Event {
    pub sn: u32,
    pub event_type: String,
    pub timestamp: Option<i64>,
    pub login: Login,
    pub argv: Option<Argv>,
    pub button: Option<Button>,
    pub channel: Option<Channel>,
    pub guild: Option<Guild>,
    pub member: Option<Member>,
    pub message: Option<Message>,
    pub operator: Option<User>,
    pub role: Option<Role>,
    pub user: Option<User>,
}

/// The body of an IDENTIFY signal.
pub struct WsIdentifyBody {
    pub token: Option<String>,
    pub sn: Option<u32>,
}

/// The body of a READY signal.
pub struct WsReadyBody {
    pub logins: Vec<Login>,
    pub proxy_urls: Vec<String>,
}

/// The body of a META signal.
pub struct WsMetaBody {
    pub proxy_urls: Vec<String>,
}

/// A signal of the Satori WebSocket protocol.
pub enum WsOp {
    Event(Event),
    Ping,
    Pong,
    Identify(WsIdentifyBody),
    Ready(WsReadyBody),
    Meta(WsMetaBody),
}

} // verus!
