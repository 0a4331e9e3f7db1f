use vstd::prelude::*;

verus! {

/// How messages of one media group are merged into one event.
pub struct MergeMediaGroup {
    /// How long to wait for the rest of a group, in milliseconds (0: do not merge).
    pub receive: u64,
}

/// The configuration of the bridge.
pub struct Settings {
    pub bind: String,
    pub path: String,
    pub token: String,
    pub json_size_limit: usize,
    pub api_id: i32,
    pub api_hash: String,
    pub phone: String,
    pub password: String,
    pub bot_token: String,
    pub proxy: String,
    pub recovery_events: usize,
    pub merge_media_group: MergeMediaGroup,
    /// Connect to Telegram's test servers.
    pub test_mode: bool,
}

/// The default wait for the rest of a media group: 100 milliseconds.
pub fn default_merge_media_group_receive() -> (r: u64)
    ensures
        r == 100,
{
    100
}

impl Default for MergeMediaGroup {
    fn default() -> (r: Self)
        ensures
            r.receive == 100,
    {
        MergeMediaGroup { receive: 100 }
    }
}

/// The default address to listen on: `127.0.0.1:5140`.
pub fn default_bind() -> (r: String)
    ensures
        r@ == "127.0.0.1:5140"@,
{
    "127.0.0.1:5140".to_owned()
}

/// The default limit of a JSON body: 10 MiB.
pub fn default_json_size_limit() -> (r: usize)
    ensures
        r == 10 * 1024 * 1024,
{
    10 * 1024 * 1024
}

} // verus!
