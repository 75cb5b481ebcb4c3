//! The lease record that is kept in the store, and the writes that give one up.
//!
//! A lease is never deleted. Giving one up is a conditional write of a record
//! that has already expired, so a holder that lost its lease cannot remove its
//! successor's.

use vstd::prelude::*;

use crate::error::CoordError;
use crate::store::{ObjectMeta, PutMode, PutRequest, StoreError, Version};
use crate::time::{Duration, SystemTime};

verus! {

/// Clock-skew grace, in seconds: a lease is taken over only once this much past
/// its expiry, so clocks that differ a little do not take it from a holder that
/// is still legitimately active.
pub const LEASE_SKEW_TOLERANCE_SECS: u64 = 2;

/// The clock-skew grace in nanoseconds.
pub open spec fn skew_tolerance() -> int {
    LEASE_SKEW_TOLERANCE_SECS * crate::time::NANOS_PER_SEC
}

/// The clock-skew grace.
pub fn lease_skew_tolerance() -> (grace: Duration)
    ensures
        grace@ == skew_tolerance(),
{
    Duration::from_secs(LEASE_SKEW_TOLERANCE_SECS)
}

/// A lease as it is stored.
#[derive(Debug, PartialEq, Eq)]
pub struct Lease {
    pub holder: String,
    pub purpose: String,
    pub acquired_at: Option<SystemTime>,
    pub expires_at: Option<SystemTime>,
    pub epoch: u64,
}

impl Clone for Lease {
    fn clone(&self) -> (copy: Lease)
        ensures
            copy == *self,
    {
        Lease {
            holder: self.holder.clone(),
            purpose: self.purpose.clone(),
            acquired_at: self.acquired_at,
            expires_at: self.expires_at,
            epoch: self.epoch,
        }
    }
}

/// A lease record, with times in nanoseconds since the Unix epoch.
pub struct LeaseView {
    pub holder: Seq<char>,
    pub purpose: Seq<char>,
    pub acquired_at: Option<int>,
    pub expires_at: Option<int>,
    pub epoch: nat,
}

/// A point in time, where there is one.
pub open spec fn time_view(time: Option<SystemTime>) -> Option<int> {
    match time {
        Some(time) => Some(time@),
        None => None,
    }
}

impl View for Lease {
    type V = LeaseView;

    open spec fn view(&self) -> LeaseView {
        LeaseView {
            holder: self.holder@,
            purpose: self.purpose@,
            acquired_at: time_view(self.acquired_at),
            expires_at: time_view(self.expires_at),
            epoch: self.epoch as nat,
        }
    }
}

impl LeaseView {
    /// Whether the record is of a lease taken or renewed, not of one given up.
    pub open spec fn is_live(self) -> bool {
        self.acquired_at is Some
    }

    /// When the lease runs out. One that does not say counts as run out since
    /// the Unix epoch.
    pub open spec fn runs_out(self) -> int {
        match self.expires_at {
            Some(time) => time,
            None => 0,
        }
    }

    /// Whether a contender whose clock reads `now` may take the lease over.
    pub open spec fn expired(self, now: int) -> bool {
        now >= self.runs_out() + skew_tolerance()
    }
}

/// The record of a lease taken or renewed at `now` for `ttl`.
pub open spec fn held_lease(
    holder: Seq<char>,
    purpose: Seq<char>,
    now: int,
    ttl: int,
    epoch: nat,
) -> LeaseView {
    LeaseView {
        holder,
        purpose,
        acquired_at: Some(now),
        expires_at: Some(now + ttl),
        epoch,
    }
}

/// The record of a lease that was given up: held by no one, and expired since
/// the Unix epoch.
pub open spec fn tombstone(purpose: Seq<char>, epoch: nat) -> LeaseView {
    LeaseView {
        holder: Seq::empty(),
        purpose,
        acquired_at: None,
        expires_at: Some(0),
        epoch,
    }
}

/// Whether `request` asks for `record` to be written under `key`, over what
/// `mode` demands.
pub open spec fn writes_lease<E: FnOnce(&Lease) -> Vec<u8>>(
    request: PutRequest,
    key: Seq<char>,
    mode: Option<Seq<char>>,
    record: LeaseView,
    encode: E,
) -> bool {
    &&& request.key@ == key
    &&& request.mode@ == mode
    &&& exists|lease: Lease|
        #![trigger encode.ensures((&lease,), request.body)]
        lease@ == record && encode.ensures((&lease,), request.body)
}

/// Whether two times that may be missing are the same.
fn same_time(a: Option<SystemTime>, b: Option<SystemTime>) -> (same: bool)
    ensures
        same == (time_view(a) == time_view(b)),
{
    match (a, b) {
        (None, None) => true,
        (Some(a), Some(b)) => !a.is_after(b) && !b.is_after(a),
        _ => false,
    }
}

impl Lease {
    /// Whether two leases are the same record, in every field.
    pub fn is_same(&self, other: &Lease) -> (same: bool)
        ensures
            same == (self@ == other@),
    {
        self.holder == other.holder && self.purpose == other.purpose && same_time(
            self.acquired_at,
            other.acquired_at,
        ) && same_time(self.expires_at, other.expires_at) && self.epoch == other.epoch
    }
}

/// The lease that `holder` has from `now` for `ttl`.
pub fn make_lease(
    holder: &str,
    purpose: &str,
    now: SystemTime,
    ttl: Duration,
    epoch: u64,
) -> (lease: Lease)
    requires
        now@ + ttl@ <= crate::time::system_time_max(),
    ensures
        lease@ == held_lease(holder@, purpose@, now@, ttl@, epoch as nat),
{
    Lease {
        holder: holder.to_owned(),
        purpose: purpose.to_owned(),
        acquired_at: Some(now),
        expires_at: Some(now.plus(ttl)),
        epoch,
    }
}

/// The record that stands for a lease given up at `epoch`.
pub fn released_lease(purpose: &str, epoch: u64) -> (lease: Lease)
    ensures
        lease@ == tombstone(purpose@, epoch as nat),
{
    Lease {
        holder: String::new(),
        purpose: purpose.to_owned(),
        acquired_at: None,
        expires_at: Some(SystemTime::unix_epoch()),
        epoch,
    }
}

/// The write that gives a lease up: the already-expired record, over the
/// version that the holder wrote last and no other.
pub fn release_lease<E>(
    key: &str,
    purpose: &str,
    version: Version,
    epoch: u64,
    encode: E,
) -> (request: PutRequest) where E: FnOnce(&Lease) -> Vec<u8>
    requires
        forall|lease: &Lease| encode.requires((lease,)),
    ensures
        writes_lease(request, key@, Some(version@), tombstone(purpose@, epoch as nat), encode),
{
    let lease = released_lease(purpose, epoch);
    let body = encode(&lease);
    let request = PutRequest { key: key.to_owned(), body, mode: PutMode::Update(version) };
    assert(encode.ensures((&lease,), request.body));
    request
}

/// What giving a lease up returns, given the store's answer to a write over the
/// last record that the holder can have written: if that record is no longer the
/// current one, the lease is someone else's by now, or was given up already.
pub open spec fn release_result(reply: Result<ObjectMeta, StoreError>) -> Result<(), CoordError> {
    match reply {
        Ok(_) => Ok(()),
        Err(StoreError::PreconditionFailed { key, current }) => Ok(()),
        Err(StoreError::NotFound { key }) => Ok(()),
        Err(error) => Err(CoordError::Store(error)),
    }
}

/// What giving a lease up returns, from the store's answer to a write over the
/// last record that the holder can have written. A lease that is no longer at
/// that record, or that is gone, counts as given up.
pub fn release_outcome(reply: Result<ObjectMeta, StoreError>) -> (outcome: Result<(), CoordError>)
    ensures
        outcome == release_result(reply),
{
    match reply {
        Ok(_) => Ok(()),
        Err(StoreError::PreconditionFailed { key: _, current: _ }) => Ok(()),
        Err(StoreError::NotFound { key: _ }) => Ok(()),
        Err(error) => Err(CoordError::Store(error)),
    }
}

} // verus!
