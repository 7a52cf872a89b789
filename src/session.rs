//! Session claims: finding the `jwt` cookie, and deciding whether a decoded
//! token still grants a session.

use vstd::prelude::*;

use crate::error::AppError;

verus! {

/// Seconds that a freshly issued session lasts: eight hours.
pub const SESSION_SECONDS: u64 = 28800;

/// What a session token asserts: who the user is and until when.
#[derive(Clone, Debug, PartialEq, Eq)]
pub struct Claims {
    pub id: i32,
    pub email: String,
    /// Expiry, in seconds since the Unix epoch.
    pub exp: u64,
}

/// A logged-in user, known by the claims of the session token.
#[derive(Clone, Debug, PartialEq, Eq)]
pub struct LoggedInUser {
    pub token: Claims,
}

/// The claims of a request that may or may not carry a session.
#[derive(Clone, Debug, PartialEq, Eq)]
pub struct OptionalClaims(pub Option<Claims>);

/// What a request's session token turned out to be once its signature was
/// checked.
#[derive(Clone, Debug, PartialEq, Eq)]
pub enum Credential {
    /// The request carries no `jwt` cookie.
    Missing,
    /// The token is malformed or its signature does not verify.
    Rejected,
    /// The token verifies and holds these claims.
    Decoded(Claims),
}

/// The claims that grant a session at time `now`: those of a verified token
/// whose expiry is still ahead.
pub open spec fn accepted(cred: Credential, now: u64) -> Option<Claims> {
    match cred {
        Credential::Decoded(c) => if now < c.exp {
            Some(c)
        } else {
            None
        },
        _ => None,
    }
}

/// What a request that must be logged in gets: the claims, or `InvalidToken`.
pub open spec fn required_outcome(cred: Credential, now: u64) -> Result<Claims, AppError> {
    match accepted(cred, now) {
        Some(c) => Ok(c),
        None => Err(AppError::InvalidToken),
    }
}

/// The expiry of a session issued at `now`, capped at the largest time.
pub open spec fn expiry_after(now: u64) -> u64 {
    if now + SESSION_SECONDS > u64::MAX {
        u64::MAX
    } else {
        (now + SESSION_SECONDS) as u64
    }
}

/// A request without a session cookie has no claims, and one that must be
/// logged in fails with `InvalidToken`.
pub proof fn lemma_no_token(now: u64)
    ensures
        accepted(Credential::Missing, now) is None,
        required_outcome(Credential::Missing, now) == Err::<Claims, AppError>(AppError::InvalidToken),
{
}

/// An expired token gives no claims, without failing, where the session is
/// optional, and fails with `InvalidToken` where it is required.
pub proof fn lemma_expired_token(claims: Claims, now: u64)
    requires
        claims.exp <= now,
    ensures
        accepted(Credential::Decoded(claims), now) is None,
        required_outcome(Credential::Decoded(claims), now) == Err::<Claims, AppError>(
            AppError::InvalidToken,
        ),
{
}

impl Claims {
    /// The claims still grant a session at time `now`.
    pub fn is_live(&self, now: u64) -> (r: bool)
        ensures
            r == (now < self.exp),
    {
        now < self.exp
    }

    /// Claims for user `id` issued at `now`, valid for eight hours.
    pub fn issue(id: i32, email: String, now: u64) -> (r: Claims)
        ensures
            r.id == id,
            r.email == email,
            r.exp == expiry_after(now),
    {
        Claims { id, email, exp: timestamp_after_8_hours(now) }
    }

    /// The session of a request that must be logged in: the claims of a
    /// verified, unexpired token, and `InvalidToken` otherwise.
    pub fn verify_required(cred: Credential, now: u64) -> (r: Result<Claims, AppError>)
        ensures
            r == required_outcome(cred, now),
    {
        match cred {
            Credential::Decoded(c) => if c.is_live(now) {
                Ok(c)
            } else {
                Err(AppError::InvalidToken)
            },
            _ => Err(AppError::InvalidToken),
        }
    }
}

impl OptionalClaims {
    /// The session of a request that may be anonymous: the claims of a
    /// verified, unexpired token, and none otherwise. It never fails.
    pub fn verify_optional(cred: Credential, now: u64) -> (r: OptionalClaims)
        ensures
            r.0 == accepted(cred, now),
    {
        match cred {
            Credential::Decoded(c) => if c.is_live(now) {
                OptionalClaims(Some(c))
            } else {
                OptionalClaims(None)
            },
            _ => OptionalClaims(None),
        }
    }
}

/// Eight hours after `now`, in seconds since the epoch, capped at the
/// largest time.
pub fn timestamp_after_8_hours(now: u64) -> (r: u64)
    ensures
        r == expiry_after(now),
{
    now.saturating_add(SESSION_SECONDS)
}

/// Relies on std::time::SystemTime::now and duration_since(UNIX_EPOCH):
/// the whole seconds since the epoch, or `None` on a clock set before it.
/// Nothing is known of the value.
#[verifier::external_body]
fn unix_seconds_now() -> (r: Option<u64>) {
    std::time::SystemTime::now().duration_since(std::time::UNIX_EPOCH).ok().map(|d| d.as_secs())
}

/// Eight hours from now, in seconds since the epoch; `None` on a clock set
/// before the epoch.
pub fn get_timestamp_after_8_hours() -> (r: Option<u64>)
    ensures
        r is Some ==> r->Some_0 >= SESSION_SECONDS,
{
    match unix_seconds_now() {
        Some(now) => Some(timestamp_after_8_hours(now)),
        None => None,
    }
}

/// Each `;`-separated entry of a Cookie header, parsed as a name and a
/// value; `None` for an entry that does not parse.
pub uninterp spec fn cookie_entries(header: Seq<char>) -> Seq<Option<(Seq<char>, Seq<char>)>>;

/// The view of one parsed cookie entry.
pub open spec fn entry_view(e: Option<(String, String)>) -> Option<(Seq<char>, Seq<char>)> {
    match e {
        Some((n, v)) => Some((n@, v@)),
        None => None,
    }
}

/// The value of the first entry named `jwt`.
pub open spec fn jwt_value(entries: Seq<Option<(Seq<char>, Seq<char>)>>) -> Option<Seq<char>>
    decreases entries.len(),
{
    if entries.len() == 0 {
        None
    } else {
        match entries[0] {
            Some((n, v)) => if n == "jwt"@ {
                Some(v)
            } else {
                jwt_value(entries.drop_first())
            },
            None => jwt_value(entries.drop_first()),
        }
    }
}

/// Relies on cookie::Cookie::split_parse: it splits a Cookie header at `;`,
/// skips blank entries, and parses each other entry as a name and a value,
/// depending on the header text alone.
#[verifier::external_body]
fn split_cookies(header: &str) -> (r: Vec<Option<(String, String)>>)
    ensures
        r@.map_values(|e: Option<(String, String)>| entry_view(e)) == cookie_entries(header@),
{
    cookie::Cookie::split_parse(header)
        .map(|c| c.ok().map(|c| (c.name().to_string(), c.value().to_string())))
        .collect()
}

/// The session token among parsed cookie entries: the value of the first
/// entry named `jwt`.
pub fn jwt_in_cookies(entries: &Vec<Option<(String, String)>>) -> (r: Option<String>)
    ensures
        match r {
            Some(t) => jwt_value(entries@.map_values(|e: Option<(String, String)>| entry_view(e)))
                == Some(t@),
            None => jwt_value(entries@.map_values(|e: Option<(String, String)>| entry_view(e)))
                is None,
        },
{
    let ghost all = entries@.map_values(|e: Option<(String, String)>| entry_view(e));
    let name = String::from_str("jwt");
    proof {
        reveal_strlit("jwt");
    }
    assert(all.skip(0) =~= all);
    let mut i: usize = 0;
    while i < entries.len()
        invariant
            i <= entries@.len(),
            all == entries@.map_values(|e: Option<(String, String)>| entry_view(e)),
            name@ == "jwt"@,
            jwt_value(all) == jwt_value(all.skip(i as int)),
        decreases entries@.len() - i,
    {
        let ghost rest = all.skip(i as int);
        assert(rest[0] == entry_view(entries@[i as int]));
        assert(rest.drop_first() =~= all.skip(i + 1));
        match &entries[i] {
            Some((n, v)) => {
                if *n == name {
                    return Some(v.clone());
                }
            },
            None => {},
        }
        i = i + 1;
    }
    assert(all.skip(i as int).len() == 0);
    None
}

/// The session token of a Cookie header: the value of its first entry
/// named `jwt`, if any.
pub fn jwt_from_cookie_header(header: &str) -> (r: Option<String>)
    ensures
        match r {
            Some(t) => jwt_value(cookie_entries(header@)) == Some(t@),
            None => jwt_value(cookie_entries(header@)) is None,
        },
{
    let entries = split_cookies(header);
    jwt_in_cookies(&entries)
}

} // verus!
