//! What a login grants.

use vstd::prelude::*;

verus! {

/// How long a token is good for, in seconds.
pub const TOKEN_LIFETIME: i64 = 3600;

/// When a token issued at `now` expires, in seconds since the epoch: none
/// where that moment is before the epoch or beyond what can be counted.
pub open spec fn token_expiry_at(now: i64) -> Option<u64> {
    if 0 <= now + TOKEN_LIFETIME <= i64::MAX {
        Some((now + TOKEN_LIFETIME) as u64)
    } else {
        None
    }
}

/// When a token issued at `now` expires.
pub fn token_expiry(now: i64) -> (expiry: Option<u64>)
    ensures
        expiry == token_expiry_at(now),
{
    match now.checked_add(TOKEN_LIFETIME) {
        Some(at) => if at >= 0 {
            Some(at as u64)
        } else {
            None
        },
        None => None,
    }
}

/// The role a token carries: the one the account has, or `user`.
pub fn role_of(role: Option<String>) -> (granted: String)
    ensures
        granted@ == match role {
            Some(r) => r@,
            None => "user"@,
        },
{
    match role {
        Some(r) => r,
        None => "user".to_owned(),
    }
}

} // verus!
