//! A cached store read-version with an expiry, as kept by a database
//! backend next to the scheduling engine.

use vstd::prelude::*;
use crate::outside::dtstamp_now;

verus! {

/// How long a cached read version stays valid, in seconds.
pub const TRANSACTION_EXPIRY_SECS: i64 = 1;

/// A store read version, valid until its expiry time.
pub struct ReadVersion {
    pub version: i64,
    /// Epoch seconds after which the version must not be reused.
    pub expires: i64,
}

/// Expiry time for a version cached at the given clock reading:
/// [`TRANSACTION_EXPIRY_SECS`] later, saturated at the largest instant.
pub open spec fn expiry_of(now: i64) -> i64 {
    if now <= i64::MAX - TRANSACTION_EXPIRY_SECS {
        (now + TRANSACTION_EXPIRY_SECS) as i64
    } else {
        i64::MAX
    }
}

/// Exec twin of [`expiry_of`].
pub fn expiry_at(now: i64) -> (r: i64)
    ensures
        r == expiry_of(now),
{
    if now <= i64::MAX - TRANSACTION_EXPIRY_SECS {
        now + TRANSACTION_EXPIRY_SECS
    } else {
        i64::MAX
    }
}

impl ReadVersion {
    /// Caches a version; it expires [`TRANSACTION_EXPIRY_SECS`] after the
    /// clock reading taken here. The reading itself cannot be pinned, but
    /// the expiry is [`expiry_of`] that reading, checked in [`expiry_at`].
    pub fn new(version: i64) -> (r: Self)
        ensures
            r.version == version,
    {
        let now = dtstamp_now();
        let expires = expiry_at(now);
        ReadVersion { version, expires }
    }

    /// Whether the version had expired at the given time.
    pub fn is_expired_at(&self, now: i64) -> (r: bool)
        ensures
            r == (self.expires < now),
    {
        self.expires < now
    }

    /// Whether the version has expired now; reads the clock, so only the
    /// relation to that reading is known.
    pub fn is_expired(&self) -> bool {
        let now = dtstamp_now();
        self.is_expired_at(now)
    }
}

impl Default for ReadVersion {
    /// The default version is 0 and counts as already expired at the time
    /// it was made.
    fn default() -> (r: Self)
        ensures
            r.version == 0,
            r.expires == 0,
    {
        ReadVersion { version: 0, expires: 0 }
    }
}

} // verus!
