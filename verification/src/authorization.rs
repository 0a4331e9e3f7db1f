use vstd::prelude::*;

use crate::text::{chars_of, chars_occur_at, occurs_at, parse_i64, spec_parse_i64};
use vstd::string::StringSliceAdditionalSpecFns;

verus! {

/// `constant_time_eq::constant_time_eq`: whether two byte strings are equal, compared in
/// time that does not depend on where they differ.  The contract claims the result is
/// their equality (the source returns `false` at once for different lengths).
#[verifier::external_body]
fn bytes_equal_constant_time(a: &[u8], b: &[u8]) -> (r: bool)
    ensures
        r == (a@ == b@),
{
    constant_time_eq::constant_time_eq(a, b)
}

pub open spec fn bearer_prefix() -> Seq<u8> {
    seq![66u8, 101u8, 97u8, 114u8, 101u8, 114u8, 32u8]
}

/// An `Authorization` header that carries the token: `Bearer ` and the token's bytes.
pub open spec fn authorization_matches(header: Seq<u8>, token: Seq<u8>) -> bool {
    header.len() >= 7 && header.take(7) == bearer_prefix() && header.skip(7) == token
}

/// Whether an `Authorization` header carries the token.
pub fn check_authorization(authorization: &[u8], token: &str) -> (r: bool)
    ensures
        r == authorization_matches(authorization@, vstd::utf8::encode_utf8(token@)),
{
    let prefix: [u8; 7] = [66, 101, 97, 114, 101, 114, 32];
    assert(prefix@ == bearer_prefix());
    if authorization.len() < 7 {
        return false;
    }
    let mut i: usize = 0;
    while i < 7
        invariant
            i <= 7 <= authorization.len(),
            prefix@ == bearer_prefix(),
            forall|j: int| 0 <= j < i ==> authorization@[j] == prefix@[j],
        decreases 7 - i,
    {
        if authorization[i] != prefix[i] {
            assert(authorization@.take(7)[i as int] != bearer_prefix()[i as int]);
            return false;
        }
        i = i + 1;
    }
    assert(authorization@.take(7) =~= bearer_prefix());
    let rest = &authorization[7..authorization.len()];
    assert(rest@ == authorization@.skip(7));
    bytes_equal_constant_time(rest, token.as_bytes())
}

/// Why a request is refused.
#[derive(Clone, Copy, PartialEq, Eq, Structural)]
pub enum UnauthorizedReason {
    InvalidAuthorization,
    NoAuthorization,
    InvalidPlatform,
    NoPlatform,
    InvalidUserId,
    NoUserId,
}

impl UnauthorizedReason {
    /// The text of the refusal.
    pub open spec fn detail_spec(&self) -> Seq<char> {
        match self {
            UnauthorizedReason::InvalidAuthorization => "Invalid authorization header."@,
            UnauthorizedReason::NoAuthorization => "No authorization header provided."@,
            UnauthorizedReason::InvalidPlatform => "Invalid platform header."@,
            UnauthorizedReason::NoPlatform => "No platform header provided."@,
            UnauthorizedReason::InvalidUserId => "Invalid user ID header."@,
            UnauthorizedReason::NoUserId => "No user ID header provided."@,
        }
    }

    /// The text of the refusal.
    pub fn detail(&self) -> (r: &'static str)
        ensures
            r@ == self.detail_spec(),
    {
        match self {
            UnauthorizedReason::InvalidAuthorization => "Invalid authorization header.",
            UnauthorizedReason::NoAuthorization => "No authorization header provided.",
            UnauthorizedReason::InvalidPlatform => "Invalid platform header.",
            UnauthorizedReason::NoPlatform => "No platform header provided.",
            UnauthorizedReason::InvalidUserId => "Invalid user ID header.",
            UnauthorizedReason::NoUserId => "No user ID header provided.",
        }
    }
}

/// The headers of a request that the authorization reads (each one's value as bytes).
pub struct AuthHeaders<'a> {
    pub authorization: Option<&'a [u8]>,
    pub satori_platform: Option<&'a [u8]>,
    pub x_platform: Option<&'a [u8]>,
    pub satori_user_id: Option<&'a [u8]>,
    pub x_self_id: Option<&'a [u8]>,
}

pub open spec fn bytes_of(h: Option<&[u8]>) -> Option<Seq<u8>> {
    match h {
        Some(b) => Some(b@),
        None => None,
    }
}

pub open spec fn first_of(a: Option<Seq<u8>>, b: Option<Seq<u8>>) -> Option<Seq<u8>> {
    match a {
        Some(x) => Some(x),
        None => b,
    }
}

/// The bytes read as ASCII characters.
pub open spec fn ascii_chars(b: Seq<u8>) -> Seq<char> {
    b.map_values(|x: u8| x as char)
}

/// A header value that names the user `self_id`: visible ASCII that `str::parse::<i64>`
/// reads as `self_id`.
pub open spec fn user_id_matches(value: Seq<u8>, self_id: i64) -> bool {
    (forall|i: int| 0 <= i < value.len() ==> (32 <= #[trigger] value[i] < 127 || value[i] == 9))
        && spec_parse_i64(ascii_chars(value)) == Some(self_id)
}

pub open spec fn telegram_bytes() -> Seq<u8> {
    seq![116u8, 101u8, 108u8, 101u8, 103u8, 114u8, 97u8, 109u8]
}

/// `s` without the `/` characters at its end.
pub open spec fn trim_slashes(s: Seq<char>) -> Seq<char>
    decreases s.len(),
{
    if s.len() > 0 && s.last() == '/' {
        trim_slashes(s.drop_last())
    } else {
        s
    }
}

/// What the authorization decides for a request.
pub enum AuthOutcome {
    /// The request goes on to the service.
    Pass,
    /// The request is answered with 401 and the reason.
    Unauthorized(UnauthorizedReason),
}

/// The decision for a request to `path` under the configured `base` path: requests
/// outside it pass; the event stream and the proxy need no token; every other request
/// needs the token (where one is configured), and all but the event stream, the meta and
/// the proxy routes need the platform `telegram` and the user id of this account.
pub open spec fn authorize_spec(
    base: Seq<char>,
    token: Seq<char>,
    path: Seq<char>,
    authorization: Option<Seq<u8>>,
    platform: Option<Seq<u8>>,
    user_id: Option<Seq<u8>>,
    self_id: i64,
    token_bytes: Seq<u8>,
) -> AuthOutcome {
    let prefix = trim_slashes(base);
    if !occurs_at(path, 0, prefix) {
        AuthOutcome::Pass
    } else {
        let rest = path.skip(prefix.len() as int);
        let is_events = rest == "/v1/events"@;
        let is_meta = occurs_at(rest, 0, "/v1/meta/"@);
        let is_proxy = occurs_at(rest, 0, "/v1/proxy/"@);
        if !is_events && !is_proxy && token.len() > 0 && authorization is None {
            AuthOutcome::Unauthorized(UnauthorizedReason::NoAuthorization)
        } else if !is_events && !is_proxy && token.len() > 0 && !authorization_matches(
            authorization.unwrap(),
            token_bytes,
        ) {
            AuthOutcome::Unauthorized(UnauthorizedReason::InvalidAuthorization)
        } else if is_events || is_meta || is_proxy {
            AuthOutcome::Pass
        } else if platform is None {
            AuthOutcome::Unauthorized(UnauthorizedReason::NoPlatform)
        } else if platform.unwrap() != telegram_bytes() {
            AuthOutcome::Unauthorized(UnauthorizedReason::InvalidPlatform)
        } else if user_id is None {
            AuthOutcome::Unauthorized(UnauthorizedReason::NoUserId)
        } else if !user_id_matches(user_id.unwrap(), self_id) {
            AuthOutcome::Unauthorized(UnauthorizedReason::InvalidUserId)
        } else {
            AuthOutcome::Pass
        }
    }
}

/// The token check: with no token configured no request is refused for its
/// `Authorization` header, nor is one that carries `Bearer ` and the token; and a path
/// outside the base path always passes.
pub proof fn lemma_token_check(
    base: Seq<char>,
    token: Seq<char>,
    path: Seq<char>,
    authorization: Option<Seq<u8>>,
    platform: Option<Seq<u8>>,
    user_id: Option<Seq<u8>>,
    self_id: i64,
)
    ensures
        (token.len() == 0 || authorization == Some(bearer_prefix() + vstd::utf8::encode_utf8(token))) ==> !(
        authorize_spec(base, token, path, authorization, platform, user_id, self_id, vstd::utf8::encode_utf8(token))
            matches AuthOutcome::Unauthorized(r) && (r == UnauthorizedReason::NoAuthorization || r
            == UnauthorizedReason::InvalidAuthorization)),
        !occurs_at(path, 0, trim_slashes(base)) ==> authorize_spec(
            base,
            token,
            path,
            authorization,
            platform,
            user_id,
            self_id,
            vstd::utf8::encode_utf8(token),
        ) == AuthOutcome::Pass,
{
    let tb = vstd::utf8::encode_utf8(token);
    let h = bearer_prefix() + tb;
    assert(h.take(7) =~= bearer_prefix());
    assert(h.skip(7) =~= tb);
}

/// Under the base path: the event stream and the proxy need nothing; with the token given,
/// the meta routes need nothing more, and every other route needs the platform
/// `telegram` (else `NoPlatform` or `InvalidPlatform`) and then a user id that reads as
/// this account's (else `NoUserId` or `InvalidUserId`).
pub proof fn lemma_route_checks(
    base: Seq<char>,
    token: Seq<char>,
    rest: Seq<char>,
    platform: Option<Seq<u8>>,
    user_id: Option<Seq<u8>>,
    self_id: i64,
)
    ensures
        ({
            let tb = vstd::utf8::encode_utf8(token);
            let path = trim_slashes(base) + rest;
            let auth = Some(bearer_prefix() + tb);
            let events = rest == "/v1/events"@;
            let proxy = occurs_at(rest, 0, "/v1/proxy/"@);
            let meta = occurs_at(rest, 0, "/v1/meta/"@);
            let telegram = seq![116u8, 101u8, 108u8, 101u8, 103u8, 114u8, 97u8, 109u8];
            &&& (events || proxy) ==> authorize_spec(base, token, path, None, None, None, self_id, tb)
                == AuthOutcome::Pass
            &&& meta ==> authorize_spec(base, token, path, auth, None, None, self_id, tb) == AuthOutcome::Pass
            &&& !(events || proxy || meta) ==> {
                &&& authorize_spec(base, token, path, auth, None, user_id, self_id, tb)
                    == AuthOutcome::Unauthorized(UnauthorizedReason::NoPlatform)
                &&& (platform is Some && platform.unwrap() != telegram) ==> authorize_spec(
                    base,
                    token,
                    path,
                    auth,
                    platform,
                    user_id,
                    self_id,
                    tb,
                ) == AuthOutcome::Unauthorized(UnauthorizedReason::InvalidPlatform)
                &&& authorize_spec(base, token, path, auth, Some(telegram), None, self_id, tb)
                    == AuthOutcome::Unauthorized(UnauthorizedReason::NoUserId)
                &&& user_id is Some ==> authorize_spec(base, token, path, auth, Some(telegram), user_id, self_id, tb)
                    == if user_id_matches(user_id.unwrap(), self_id) {
                    AuthOutcome::Pass
                } else {
                    AuthOutcome::Unauthorized(UnauthorizedReason::InvalidUserId)
                }
            }
        }),
{
    let tb = vstd::utf8::encode_utf8(token);
    let path = trim_slashes(base) + rest;
    let prefix = trim_slashes(base);
    assert(path.subrange(0, prefix.len() as int) =~= prefix);
    assert(occurs_at(path, 0, prefix));
    assert(path.skip(prefix.len() as int) =~= rest);
    let h = bearer_prefix() + tb;
    assert(h.take(7) =~= bearer_prefix());
    assert(h.skip(7) =~= tb);
    assert(telegram_bytes() =~= seq![116u8, 101u8, 108u8, 101u8, 103u8, 114u8, 97u8, 109u8]);
}

/// The middleware that checks the token, the platform and the user id of requests.
pub struct SatoriAuthorization;

/// The authorization put in front of a service.
pub struct SatoriAuthorizationMiddleware<S> {
    service: S,
}

impl SatoriAuthorization {
    /// The authorization in front of `service`.
    pub fn create<S>(&self, service: S) -> (m: SatoriAuthorizationMiddleware<S>)
        ensures
            m.service() == service,
    {
        SatoriAuthorizationMiddleware { service }
    }
}

fn user_id_matches_exec(value: &[u8], self_id: i64) -> (r: bool)
    ensures
        r == user_id_matches(value@, self_id),
{
    let mut cs: Vec<char> = Vec::new();
    let mut i: usize = 0;
    while i < value.len()
        invariant
            i <= value.len(),
            cs@ == ascii_chars(value@.take(i as int)),
            forall|j: int| 0 <= j < i ==> (32 <= #[trigger] value@[j] < 127 || value@[j] == 9),
        decreases value.len() - i,
    {
        let b = value[i];
        if !(32 <= b && b < 127 || b == 9) {
            return false;
        }
        cs.push(b as char);
        assert(ascii_chars(value@.take(i + 1)) =~= ascii_chars(value@.take(i as int)).push(b as char));
        i = i + 1;
    }
    assert(value@.take(value.len() as int) == value@);
    parse_i64(cs.as_slice()) == Some(self_id)
}

fn is_telegram(value: &[u8]) -> (r: bool)
    ensures
        r == (value@ == telegram_bytes()),
{
    let t: [u8; 8] = [116, 101, 108, 101, 103, 114, 97, 109];
    assert(t@ == telegram_bytes());
    if value.len() != 8 {
        return false;
    }
    let mut i: usize = 0;
    while i < 8
        invariant
            i <= 8,
            value.len() == 8,
            t@ == telegram_bytes(),
            forall|j: int| 0 <= j < i ==> value@[j] == t@[j],
        decreases 8 - i,
    {
        if value[i] != t[i] {
            return false;
        }
        i = i + 1;
    }
    assert(value@ =~= telegram_bytes());
    true
}

impl<S> SatoriAuthorizationMiddleware<S> {
    /// The service behind the authorization.
    pub closed spec fn service(&self) -> S {
        self.service
    }

    /// The service behind the authorization.
    pub fn inner(&self) -> (s: &S)
        ensures
            *s == self.service(),
    {
        &self.service
    }

    /// The decision for a request (see `authorize_spec`); a header is looked up under
    /// its Satori name first and its older name second.
    pub fn authorize(
        &self,
        base_path: &str,
        token: &str,
        path: &str,
        headers: &AuthHeaders,
        self_id: i64,
    ) -> (r: AuthOutcome)
        ensures
            r == authorize_spec(
                base_path@,
                token@,
                path@,
                bytes_of(headers.authorization),
                first_of(bytes_of(headers.satori_platform), bytes_of(headers.x_platform)),
                first_of(bytes_of(headers.satori_user_id), bytes_of(headers.x_self_id)),
                self_id,
                vstd::utf8::encode_utf8(token@),
            ),
    {
        let base = chars_of(base_path);
        let mut n = base.len();
        assert(base@.take(n as int) == base@);
        while n > 0 && base[n - 1] == '/'
            invariant
                n <= base.len(),
                trim_slashes(base@) == trim_slashes(base@.take(n as int)),
            decreases n,
        {
            assert(base@.take(n as int).drop_last() == base@.take(n - 1));
            n = n - 1;
        }
        let prefix = &base.as_slice()[0..n];
        assert(prefix@ == trim_slashes(base@)) by {
            assert(prefix@ == base@.take(n as int));
        }
        let p = chars_of(path);
        if !chars_occur_at(p.as_slice(), 0, prefix) {
            return AuthOutcome::Pass;
        }
        let rest = &p.as_slice()[prefix.len()..p.len()];
        assert(rest@ == p@.skip(prefix@.len() as int));
        let events = chars_of("/v1/events");
        let meta = chars_of("/v1/meta/");
        let proxy = chars_of("/v1/proxy/");
        let is_events = crate::text::chars_eq(rest, events.as_slice());
        let is_meta = chars_occur_at(rest, 0, meta.as_slice());
        let is_proxy = chars_occur_at(rest, 0, proxy.as_slice());
        if !is_events && !is_proxy && !token.is_empty() {
            match headers.authorization {
                None => return AuthOutcome::Unauthorized(UnauthorizedReason::NoAuthorization),
                Some(v) => {
                    if !check_authorization(v, token) {
                        return AuthOutcome::Unauthorized(UnauthorizedReason::InvalidAuthorization);
                    }
                },
            }
        }
        if is_events || is_meta || is_proxy {
            return AuthOutcome::Pass;
        }
        let platform = match headers.satori_platform {
            Some(v) => Some(v),
            None => headers.x_platform,
        };
        match platform {
            None => return AuthOutcome::Unauthorized(UnauthorizedReason::NoPlatform),
            Some(v) => {
                if !is_telegram(v) {
                    return AuthOutcome::Unauthorized(UnauthorizedReason::InvalidPlatform);
                }
            },
        }
        let user = match headers.satori_user_id {
            Some(v) => Some(v),
            None => headers.x_self_id,
        };
        match user {
            None => AuthOutcome::Unauthorized(UnauthorizedReason::NoUserId),
            Some(v) => {
                if user_id_matches_exec(v, self_id) {
                    AuthOutcome::Pass
                } else {
                    AuthOutcome::Unauthorized(UnauthorizedReason::InvalidUserId)
                }
            },
        }
    }
}

} // verus!
