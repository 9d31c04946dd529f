//! Trusted wrappers around the outside crates the pipeline leans on: uuid for
//! fresh identifiers, chrono for wall-clock timestamps, and rand for the
//! market simulator's noise. Each wrapper body only makes the outside call;
//! its contract states no more than the crate's documentation promises.

use vstd::prelude::*;

verus! {

/// Relies on uuid::Uuid::new_v4 and its Display impl: a version-4 UUID
/// rendered in the hyphenated form, which is always 36 characters long.
#[verifier::external_body]
pub fn fresh_id() -> (r: String)
    ensures
        r@.len() == 36,
{
    uuid::Uuid::new_v4().to_string()
}

/// Relies on chrono::Utc::now / chrono::DateTime::timestamp for the current
/// wall-clock time as whole seconds since the Unix epoch. Nothing is promised
/// of the value: the clock is the machine's.
#[verifier::external_body]
pub fn now_unix_seconds() -> i64 {
    chrono::Utc::now().timestamp()
}

/// Relies on rand::Rng::gen_range over a half-open integer range: the sample
/// lies in `[lo, hi)`, and the call panics only on an empty range, which the
/// precondition rules out.
#[verifier::external_body]
pub fn random_in_range(lo: u64, hi: u64) -> (r: u64)
    requires
        lo < hi,
    ensures
        lo <= r < hi,
{
    rand::Rng::gen_range(&mut rand::thread_rng(), lo..hi)
}

} // verus!
