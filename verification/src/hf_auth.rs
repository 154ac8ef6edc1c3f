//! HuggingFace OAuth device-code authentication (RFC 8628): the token and
//! its expiry, and how a token-poll answer is classified. The HTTP requests
//! and the keychain live with the application; this module decides what the
//! answers mean.

use vstd::prelude::*;

use crate::clock::now_unix_secs;
use crate::huggingface::pairs_view;
use crate::json::{as_str, deref_opt, spec_as_str, spec_get, JsonValue};

verus! {

/// The OAuth client id registered for the application (a public client, no
/// secret).
pub const HF_OAUTH_CLIENT_ID: &'static str = "92992f79-e30e-4a1e-b20c-b904b3231622";

/// Scopes requested: public and gated repository reads, plus the profile so
/// the username can be shown.
pub const HF_OAUTH_SCOPES: &'static str = "openid profile read-repos gated-repos";

/// Seconds between token polls (the RFC 8628 default; the server sends none).
pub const POLL_INTERVAL_SECS: u64 = 5;

/// Keychain service and account names under which the token and the cached
/// username are stored.
pub const KEYRING_SERVICE: &'static str = "OmniLauncher";

pub const KEYRING_ACCOUNT_TOKEN: &'static str = "hf_oauth_token";

pub const KEYRING_ACCOUNT_USER: &'static str = "hf_username";

/// The initial device-authorization answer, shown to the user.
pub struct DeviceAuthInfo {
    pub device_code: String,
    /// Short code the user enters at `verification_uri`.
    pub user_code: String,
    pub verification_uri: String,
    /// Lifetime of the codes, in seconds.
    pub expires_in: u64,
}

/// A granted token as the token endpoint returns it.
pub struct TokenSuccess {
    pub access_token: String,
    pub expires_in: u64,
}

/// An access token and the Unix time (seconds) at which it expires.
pub struct AccessToken {
    /// The bearer token. Sensitive: never logged.
    pub value: String,
    pub expires_at: u64,
}

/// `a - b`, or 0 when `b` is larger.
pub open spec fn saturating_sub(a: u64, b: u64) -> u64 {
    if a >= b { (a - b) as u64 } else { 0 }
}

impl AccessToken {
    /// The token granted at Unix time `now`: it expires `expires_in` seconds
    /// later (saturating at the largest representable time).
    pub fn from_response_at(resp: &TokenSuccess, now: u64) -> (r: AccessToken)
        ensures
            r.value@ == resp.access_token@,
            r.expires_at == (if now + resp.expires_in <= u64::MAX { (now + resp.expires_in) as u64 } else { u64::MAX }),
    {
        AccessToken { value: resp.access_token.clone(), expires_at: now.saturating_add(resp.expires_in) }
    }

    /// The token granted now (see [`AccessToken::from_response_at`]).
    pub fn from_response(resp: &TokenSuccess) -> (r: AccessToken)
        ensures
            r.value@ == resp.access_token@,
            r.expires_at >= resp.expires_in,
    {
        Self::from_response_at(resp, now_unix_secs())
    }

    /// Seconds left at Unix time `now`; 0 once expired.
    pub fn seconds_until_expiry_at(&self, now: u64) -> (r: u64)
        ensures
            r == saturating_sub(self.expires_at, now),
    {
        self.expires_at.saturating_sub(now)
    }

    /// Seconds left now; 0 once expired. Never more than `expires_at`.
    pub fn seconds_until_expiry(&self) -> (r: u64)
        ensures
            exists|now: u64| r == saturating_sub(self.expires_at, now),
            r <= self.expires_at,
    {
        let now = now_unix_secs();
        self.seconds_until_expiry_at(now)
    }

    /// Whether, at Unix time `now`, the token expires within `soon` seconds
    /// (or already has).
    pub fn expires_within_at(&self, soon: u64, now: u64) -> (r: bool)
        ensures
            r == (saturating_sub(self.expires_at, now) <= soon),
    {
        self.seconds_until_expiry_at(now) <= soon
    }

    /// Whether the token expires within `soon` seconds from now (or already
    /// has). Always true when `expires_at <= soon`.
    pub fn expires_within(&self, soon: u64) -> (r: bool)
        ensures
            exists|now: u64| r == (saturating_sub(self.expires_at, now) <= soon),
            self.expires_at <= soon ==> r,
    {
        let now = now_unix_secs();
        self.expires_within_at(soon, now)
    }
}

/// The outcome of one token poll.
pub enum PollOutcome {
    /// Authorized: the token is stored and the username known.
    Granted { username: String, expires_at: u64 },
    /// Not yet authorized: keep polling.
    Pending,
    /// The server asks for a slower poll (+5 s).
    SlowDown,
    /// The device code expired: start over.
    Expired,
    /// Refused, with the text shown to the user.
    Denied { message: String },
}

/// The outcome for an OAuth `error` code returned by the token endpoint.
pub open spec fn spec_poll_outcome(error: Seq<char>) -> PollOutcomeKind {
    if error == "authorization_pending"@ {
        PollOutcomeKind::Pending
    } else if error == "slow_down"@ {
        PollOutcomeKind::SlowDown
    } else if error == "expired_token"@ {
        PollOutcomeKind::Expired
    } else if error == "access_denied"@ {
        PollOutcomeKind::Denied("You declined the authorization request."@)
    } else if error == "declined_access"@ {
        PollOutcomeKind::Denied("Your account is not permitted to authorize this app."@)
    } else {
        PollOutcomeKind::Denied("Authorization failed: "@ + error)
    }
}

/// Mathematical model of a non-granted [`PollOutcome`].
pub enum PollOutcomeKind {
    Pending,
    SlowDown,
    Expired,
    Denied(Seq<char>),
    Granted(Seq<char>, u64),
}

impl View for PollOutcome {
    type V = PollOutcomeKind;

    open spec fn view(&self) -> PollOutcomeKind {
        match self {
            PollOutcome::Granted { username, expires_at } => PollOutcomeKind::Granted(username@, *expires_at),
            PollOutcome::Pending => PollOutcomeKind::Pending,
            PollOutcome::SlowDown => PollOutcomeKind::SlowDown,
            PollOutcome::Expired => PollOutcomeKind::Expired,
            PollOutcome::Denied { message } => PollOutcomeKind::Denied(message@),
        }
    }
}

/// Classifies the `error` field of a failed token poll (an unparseable
/// answer is classified as the code `"unknown"`).
pub fn poll_outcome_from_error(error: &str) -> (r: PollOutcome)
    ensures
        r@ == spec_poll_outcome(error@),
{
    let e = String::from_str(error);
    if e == String::from_str("authorization_pending") {
        PollOutcome::Pending
    } else if e == String::from_str("slow_down") {
        PollOutcome::SlowDown
    } else if e == String::from_str("expired_token") {
        PollOutcome::Expired
    } else if e == String::from_str("access_denied") {
        PollOutcome::Denied { message: String::from_str("You declined the authorization request.") }
    } else if e == String::from_str("declined_access") {
        PollOutcome::Denied { message: String::from_str("Your account is not permitted to authorize this app.") }
    } else {
        PollOutcome::Denied { message: String::from_str("Authorization failed: ").concat(error) }
    }
}


/// A token granted at `now` with a lifetime of `expires_in` seconds has
/// exactly that lifetime left at `now`.
pub proof fn law_fresh_token_lifetime(now: u64, expires_in: u64)
    requires
        now + expires_in <= u64::MAX,
    ensures
        saturating_sub((now + expires_in) as u64, now) == expires_in,
{
}

/// The time left only counts down, and is zero exactly from the expiry on.
pub proof fn law_expiry_countdown(expires_at: u64, earlier: u64, later: u64)
    requires
        earlier <= later,
    ensures
        saturating_sub(expires_at, later) <= saturating_sub(expires_at, earlier),
        (saturating_sub(expires_at, later) == 0) == (later >= expires_at),
{
}

/// A token that expires within some time also expires within any longer
/// time, and an expired token expires within any time.
pub proof fn law_expires_within_monotone(expires_at: u64, now: u64, soon: u64, longer: u64)
    requires
        soon <= longer,
    ensures
        saturating_sub(expires_at, now) <= soon ==> saturating_sub(expires_at, now) <= longer,
        now >= expires_at ==> saturating_sub(expires_at, now) <= soon,
{
}

/// The user name in a `whoami-v2` answer: its `name` field, or the error
/// shown when it is missing.
pub fn whoami_name(v: &JsonValue) -> (r: Result<String, String>)
    ensures
        match r {
            Ok(n) => spec_as_str(spec_get(*v, "name"@)) == Some(n@),
            Err(msg) => spec_as_str(spec_get(*v, "name"@)) is None && msg@ == "whoami response missing 'name' field"@,
        },
{
    let field = v.get("name");
    assert(deref_opt(field) == spec_get(*v, "name"@));
    match as_str(field) {
        Some(n) => Ok(n.clone()),
        None => Err(String::from_str("whoami response missing 'name' field")),
    }
}

/// The outcome of a granted poll: the user name from `whoami` when it
/// could be read, else `(unknown)`, and the token's expiry.
pub fn granted_outcome(token: &AccessToken, username: Option<String>) -> (r: PollOutcome)
    ensures
        r@ == PollOutcomeKind::Granted(
            match username {
                Some(n) => n@,
                None => "(unknown)"@,
            },
            token.expires_at,
        ),
{
    let name = match username {
        Some(n) => n,
        None => String::from_str("(unknown)"),
    };
    PollOutcome::Granted { username: name, expires_at: token.expires_at }
}

/// The form of a device-code request: the registered client and the scopes.
pub fn device_code_form() -> (r: Vec<(String, String)>)
    ensures
        pairs_view(r@) == seq![("client_id"@, HF_OAUTH_CLIENT_ID@), ("scope"@, HF_OAUTH_SCOPES@)],
{
    let mut v: Vec<(String, String)> = Vec::new();
    v.push((String::from_str("client_id"), String::from_str(HF_OAUTH_CLIENT_ID)));
    v.push((String::from_str("scope"), String::from_str(HF_OAUTH_SCOPES)));
    assert(pairs_view(v@) =~= seq![("client_id"@, HF_OAUTH_CLIENT_ID@), ("scope"@, HF_OAUTH_SCOPES@)]);
    v
}

/// The grant type of a device-code token poll.
pub const DEVICE_CODE_GRANT: &'static str = "urn:ietf:params:oauth:grant-type:device_code";

/// The form of a token poll for `device_code`.
pub fn token_poll_form(device_code: &str) -> (r: Vec<(String, String)>)
    ensures
        pairs_view(r@) == seq![
            ("grant_type"@, DEVICE_CODE_GRANT@),
            ("device_code"@, device_code@),
            ("client_id"@, HF_OAUTH_CLIENT_ID@),
        ],
{
    let mut v: Vec<(String, String)> = Vec::new();
    v.push((String::from_str("grant_type"), String::from_str(DEVICE_CODE_GRANT)));
    v.push((String::from_str("device_code"), String::from_str(device_code)));
    v.push((String::from_str("client_id"), String::from_str(HF_OAUTH_CLIENT_ID)));
    assert(pairs_view(v@) =~= seq![
        ("grant_type"@, DEVICE_CODE_GRANT@),
        ("device_code"@, device_code@),
        ("client_id"@, HF_OAUTH_CLIENT_ID@),
    ]);
    v
}

} // verus!
