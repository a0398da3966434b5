//! The share-token allocator: collision-resistant short numeric PIN
//! issuance bound to a session, single-use on redemption.

use vstd::prelude::*;

use rand::RngExt;

use crate::models::ShareTokenView;
use crate::registry::{Registry, RegistryView};

verus! {

/// Relies on `rand::rng` and `RngExt::random_range` over a half-open range,
/// documented to sample from that range; it panics only on an empty range,
/// which the bound below rules out.  Nothing relates two draws.
#[verifier::external_body]
fn random_in_range(lo: i64, hi: i64) -> (r: i64)
    requires
        lo < hi,
    ensures
        lo <= r < hi,
{
    rand::rng().random_range(lo..hi)
}

/// How many collisions the allocator will ride out before giving up; far
/// beyond what any stored population can produce in practice.
pub const ALLOCATION_ATTEMPTS: u32 = 100000;

/// Draws a fresh numeric token for the session and stores the binding in
/// both directions.
///
/// Tokens are drawn uniformly from an adaptive half-open range, initially
/// six-digit; once the collision count passes half the range's width, the
/// range is widened tenfold.  A returned token was bound to no session, and
/// it never leaves the store bound to any but this one.  Only a draw streak
/// of nothing but collisions ends without a token, with the store untouched.
pub fn create_new_share_token(reg: &mut Registry, session_id: &str) -> (r: Option<i64>)
    ensures
        match r {
            Some(t) => {
                &&& 100000 <= t
                &&& !old(reg)@.tokens.contains_key(t)
                &&& final(reg)@ == (RegistryView {
                    tokens: old(reg)@.tokens.insert(
                        t,
                        ShareTokenView { id: t, session_id: session_id@ },
                    ),
                    session_tokens: old(reg)@.session_tokens.insert(session_id@, t),
                    ..old(reg)@
                })
            },
            None => final(reg)@ == old(reg)@,
        },
{
    let ghost orig = reg@;
    let mut min: i64 = 100000;
    let mut max: i64 = 1000000;
    let mut tries: i64 = 0;
    let mut fuel: u32 = ALLOCATION_ATTEMPTS;

    let mut number = random_in_range(min, max);
    while reg.token_exists(number)
        invariant
            reg@ == orig,
            100000 <= min < max,
            min <= number,
            0 <= tries,
            tries + fuel <= ALLOCATION_ATTEMPTS,
        decreases fuel,
    {
        if fuel == 0 {
            return None;
        }
        fuel = fuel - 1;
        if tries > (max - min) / 2 {
            tries = 0;
            if max <= i64::MAX / 10 {
                min = min * 10;
                max = max * 10;
            }
        }
        tries = tries + 1;
        number = random_in_range(min, max);
    }
    reg.bind_token(number, session_id);
    Some(number)
}

/// Cancels a session's outstanding token, dropping both directions of the
/// binding; with no token outstanding nothing changes.
pub fn cancel_share_token(reg: &mut Registry, session_id: &str) -> (r: bool)
    ensures
        r == old(reg)@.session_tokens.contains_key(session_id@),
        r ==> final(reg)@ == (RegistryView {
            tokens: old(reg)@.tokens.remove(old(reg)@.session_tokens[session_id@]),
            session_tokens: old(reg)@.session_tokens.remove(session_id@),
            ..old(reg)@
        }),
        !r ==> final(reg)@ == old(reg)@,
{
    match reg.get_session_token(session_id) {
        Some(token) => {
            reg.remove_share_token(token);
            reg.remove_session_token(session_id);
            true
        },
        None => false,
    }
}

} // verus!
