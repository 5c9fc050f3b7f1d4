//! The token-issuing service's decisions. Signing, signature validation
//! and the HTTP surface live in the unverified shell (the JWT library
//! requires serde derives on the claims type, which the verifier cannot
//! carry); the shell hands in the decoded claims, or `None` when decoding
//! or signature validation failed, and every decision is made here.

use vstd::prelude::*;

verus! {

/// Lifetime of an access token, in seconds.
pub const ACCESS_TOKEN_SECS: u64 = 60;

/// Lifetime of a refresh token, in seconds.
pub const REFRESH_TOKEN_SECS: u64 = 3600;

/// The claims carried by a token.
#[derive(Debug, PartialEq, Eq)]
pub struct Claims {
    /// Subject: the user the token was issued to.
    pub sub: String,
    /// Expiration time, in seconds since the epoch.
    pub exp: u64,
    /// Issue time, in seconds since the epoch.
    pub iat: u64,
    /// `access` or `refresh`.
    pub token_type: String,
}

/// Build the claims of a token issued at `now` with the given lifetime.
pub fn make_claims(user_id: &str, now: u64, validity_secs: u64, token_type: &str) -> (c:
    Claims)
    requires
        now + validity_secs <= u64::MAX,
    ensures
        c.sub@ == user_id@,
        c.iat == now,
        c.exp == now + validity_secs,
        c.token_type@ == token_type@,
{
    Claims {
        sub: String::from_str(user_id),
        exp: now + validity_secs,
        iat: now,
        token_type: String::from_str(token_type),
    }
}

/// The claims of the access/refresh token pair issued to a user at `now`:
/// an access token valid for one minute and a refresh token valid for one
/// hour, both stamped with the issue time.
pub fn issue_token_claims(user_id: &str, now: u64) -> (r: (Claims, Claims))
    requires
        now + REFRESH_TOKEN_SECS <= u64::MAX,
    ensures
        r.0.sub@ == user_id@,
        r.0.iat == now,
        r.0.exp == now + ACCESS_TOKEN_SECS,
        r.0.token_type@ == "access"@,
        r.1.sub@ == user_id@,
        r.1.iat == now,
        r.1.exp == now + REFRESH_TOKEN_SECS,
        r.1.token_type@ == "refresh"@,
{
    let access = make_claims(user_id, now, ACCESS_TOKEN_SECS, "access");
    let refresh = make_claims(user_id, now, REFRESH_TOKEN_SECS, "refresh");
    (access, refresh)
}

/// The verification endpoint's decision: a token is valid exactly when it
/// decoded (and its signature checked) and it is an access token. Claims
/// are reported back only for a valid token.
pub fn verify_decision(decoded: Option<Claims>) -> (r: (bool, Option<Claims>))
    ensures
        r.0 <==> (decoded matches Some(c) && c.token_type@ == "access"@),
        r.0 ==> r.1 == decoded,
        !r.0 ==> r.1 is None,
{
    match decoded {
        Some(c) => {
            if c.token_type == String::from_str("access") {
                (true, Some(c))
            } else {
                (false, None)
            }
        },
        None => (false, None),
    }
}

/// What the refresh endpoint does with a presented token.
#[derive(Debug, PartialEq, Eq)]
pub enum RefreshAction {
    /// The token did not decode, or is not a refresh token.
    Unauthorized,
    /// Issue a fresh access token with these claims.
    IssueAccess(Claims),
}

/// The refresh endpoint's decision: a presented token earns a new access
/// token exactly when it decoded (and its signature checked) and it is a
/// refresh token; the new access token is issued at `now` to the same
/// subject, valid for one minute.
pub fn refresh_decision(decoded: Option<Claims>, now: u64) -> (r: RefreshAction)
    requires
        now + ACCESS_TOKEN_SECS <= u64::MAX,
    ensures
        r is Unauthorized <==> !(decoded matches Some(c) && c.token_type@ == "refresh"@),
        decoded matches Some(c) ==> c.token_type@ == "refresh"@ ==> (r matches
            RefreshAction::IssueAccess(a) && a.sub@ == c.sub@ && a.iat == now && a.exp == now
            + ACCESS_TOKEN_SECS && a.token_type@ == "access"@),
{
    match decoded {
        Some(c) => {
            if c.token_type == String::from_str("refresh") {
                let access = make_claims(c.sub.as_str(), now, ACCESS_TOKEN_SECS, "access");
                RefreshAction::IssueAccess(access)
            } else {
                RefreshAction::Unauthorized
            }
        },
        None => RefreshAction::Unauthorized,
    }
}

} // verus!
