//! Taking a lease: a single try, and a try repeated until a deadline.

use vstd::prelude::*;

use crate::cas::BackoffRequest;
use crate::error::CoordError;
use crate::guard::LeaseGuard;
use crate::lease::{lease_skew_tolerance, make_lease, Lease};
use crate::message::get_message;
use crate::store::{ObjectMeta, PutMode, PutRequest, StoreError};
use crate::time::{Duration, Instant, SystemTime};

verus! {

/// A try at a lease that is about to read its record.
#[derive(Debug, PartialEq, Eq)]
pub struct TryAcquire {
    key: String,
    holder: String,
    purpose: String,
    ttl: Duration,
    now: SystemTime,
}

/// Who wants which lease, for what and how long, and when they asked; times in
/// nanoseconds.
pub struct ContenderView {
    pub key: Seq<char>,
    pub holder: Seq<char>,
    pub purpose: Seq<char>,
    pub ttl: int,
    pub now: int,
}

impl View for TryAcquire {
    type V = ContenderView;

    closed spec fn view(&self) -> ContenderView {
        ContenderView {
            key: self.key@,
            holder: self.holder@,
            purpose: self.purpose@,
            ttl: self.ttl@,
            now: self.now@,
        }
    }
}

/// The epoch that a contender claims the lease with after reading `record`,
/// `None` if it has to leave the lease alone. A lease never held is claimed
/// with epoch zero, one that ran out with the next epoch.
pub open spec fn claim_epoch(record: Option<crate::lease::LeaseView>, now: int) -> Option<nat> {
    match record {
        None => Some(0),
        Some(lease) => if lease.expired(now) {
            Some(lease.epoch + 1)
        } else {
            None
        },
    }
}

impl ContenderView {
    /// The record that claims the lease with `epoch`.
    pub open spec fn claim_record(self, epoch: nat) -> crate::lease::LeaseView {
        crate::lease::held_lease(self.holder, self.purpose, self.now, self.ttl, epoch)
    }

    /// The guard that a claim written as `version` gives.
    pub open spec fn claimed(self, version: Seq<char>, epoch: nat) -> crate::guard::GuardView {
        crate::guard::GuardView::acquired(
            self.key,
            self.holder,
            self.purpose,
            version,
            self.now,
            self.ttl,
            epoch,
        )
    }
}

/// The record that a read found.
pub open spec fn seen_record(current: Option<(ObjectMeta, Lease)>) -> Option<
    crate::lease::LeaseView,
> {
    match current {
        Some((_, lease)) => Some(lease@),
        None => None,
    }
}

/// A claim that has been sent and not yet answered.
#[derive(Debug, PartialEq, Eq)]
pub struct LeaseClaim {
    contender: TryAcquire,
    epoch: u64,
}

impl LeaseClaim {
    /// Who claims the lease.
    pub closed spec fn contender(self) -> ContenderView {
        self.contender@
    }

    /// The epoch it is claimed with.
    pub closed spec fn claimed_epoch(self) -> nat {
        self.epoch as nat
    }

    /// The claimed expiry is representable.
    #[verifier::type_invariant]
    spec fn expiry_is_representable(self) -> bool {
        self.contender@.now + self.contender@.ttl <= crate::time::system_time_max()
    }
}

/// What a try does once it has read the lease.
#[derive(Debug, PartialEq)]
pub enum AcquirePlan {
    /// The try is over.
    Finished(Result<Option<LeaseGuard>, CoordError>),
    /// The request is to be put to the store.
    Claim(LeaseClaim, PutRequest),
}

/// Whether the times and the epoch that a try computes are representable: when
/// the lease it read may be taken over, and, where it claims the lease, the
/// claimed expiry and epoch.
pub open spec fn representable(
    contender: ContenderView,
    record: Option<crate::lease::LeaseView>,
) -> bool {
    &&& record matches Some(lease) ==> lease.runs_out() + crate::lease::skew_tolerance()
        <= crate::time::system_time_max()
    &&& claim_epoch(record, contender.now) matches Some(epoch) ==> epoch <= u64::MAX
        && contender.now + contender.ttl <= crate::time::system_time_max()
}

/// Whether `plan` is what a try does after its read gave `current`.
pub open spec fn attempted<E: FnOnce(&Lease) -> Vec<u8>>(
    contender: ContenderView,
    current: Result<Option<(ObjectMeta, Lease)>, CoordError>,
    encode: E,
    plan: AcquirePlan,
) -> bool {
    match current {
        Err(error) => plan == AcquirePlan::Finished(Err(error)),
        Ok(read) => match claim_epoch(seen_record(read), contender.now) {
            None => plan == AcquirePlan::Finished(Ok(None)),
            Some(epoch) => {
                &&& plan matches AcquirePlan::Claim(claim, request)
                &&& claim.contender() == contender
                &&& claim.claimed_epoch() == epoch
                &&& crate::lease::writes_lease(
                    request,
                    contender.key,
                    crate::cas::seen_version(read),
                    contender.claim_record(epoch),
                    encode,
                )
            },
        },
    }
}

/// Try to take the lease under `key` for `ttl`, with the clock at `now`.
pub fn try_acquire(key: &str, holder: &str, purpose: &str, ttl: Duration, now: SystemTime) -> (r:
    TryAcquire)
    ensures
        r@ == (ContenderView {
            key: key@,
            holder: holder@,
            purpose: purpose@,
            ttl: ttl@,
            now: now@,
        }),
{
    TryAcquire {
        key: key.to_owned(),
        holder: holder.to_owned(),
        purpose: purpose.to_owned(),
        ttl,
        now,
    }
}

impl TryAcquire {
    /// The key of the record to read.
    pub fn key(&self) -> (key: &str)
        ensures
            key@ == self@.key,
    {
        self.key.as_str()
    }

    /// Decide on a claim, from what was read. A lease that is absent is
    /// created; one that ran out, with the clock-skew grace on top, is taken
    /// over; one that is still held is left alone, and the try ends with
    /// `Ok(None)`.
    pub fn on_current<E>(
        self,
        current: Result<Option<(ObjectMeta, Lease)>, CoordError>,
        encode: E,
    ) -> (plan: AcquirePlan) where E: FnOnce(&Lease) -> Vec<u8>
        requires
            current matches Ok(read) ==> representable(self@, seen_record(read)),
            forall|lease: &Lease| encode.requires((lease,)),
        ensures
            attempted(self@, current, encode, plan),
    {
        let (epoch, mode) = match current {
            Err(error) => return AcquirePlan::Finished(Err(error)),
            Ok(None) => (0u64, PutMode::Create),
            Ok(Some((meta, existing))) => {
                let expires_at = match existing.expires_at {
                    Some(time) => time,
                    None => SystemTime::unix_epoch(),
                };
                if expires_at.plus(lease_skew_tolerance()).is_after(self.now) {
                    return AcquirePlan::Finished(Ok(None));
                }
                (existing.epoch + 1, PutMode::Update(meta.version))
            },
        };
        let lease = make_lease(
            self.holder.as_str(),
            self.purpose.as_str(),
            self.now,
            self.ttl,
            epoch,
        );
        let body = encode(&lease);
        let request = PutRequest { key: self.key.clone(), body, mode };
        assert(encode.ensures((&lease,), request.body));
        AcquirePlan::Claim(LeaseClaim { contender: self, epoch }, request)
    }

    /// Decide on a claim, from the store's answer to the read: as
    /// [`TryAcquire::on_current`], with the contents of a found record passed
    /// through `decode` first. `None` where a time or an epoch that the try
    /// has to compute is not representable.
    pub fn on_read<D, E>(
        self,
        reply: Result<Option<(ObjectMeta, Vec<u8>)>, StoreError>,
        decode: D,
        encode: E,
    ) -> (plan: Option<AcquirePlan>) where
        D: FnOnce(Vec<u8>) -> Result<Lease, prost::DecodeError>,
        E: FnOnce(&Lease) -> Vec<u8>,

        requires
            forall|body: Vec<u8>| decode.requires((body,)),
            forall|lease: &Lease| encode.requires((lease,)),
        ensures
            exists|current: Result<Option<(ObjectMeta, Lease)>, CoordError>|
                {
                    &&& #[trigger] crate::message::fetched(reply, decode, current)
                    &&& match plan {
                        None => current matches Ok(read) && !representable(
                            self@,
                            seen_record(read),
                        ),
                        Some(plan) => {
                            &&& current matches Ok(read) ==> representable(self@, seen_record(read))
                            &&& attempted(self@, current, encode, plan)
                        },
                    }
                },
    {
        let current = get_message(reply, decode);
        assert(crate::message::fetched(reply, decode, current));
        if let Ok(read) = &current {
            if !self.is_representable(read) {
                return None;
            }
        }
        Some(self.on_current(current, encode))
    }

    /// Whether the times and the epoch that the try computes after reading
    /// `read` are representable.
    fn is_representable(&self, read: &Option<(ObjectMeta, Lease)>) -> (fits: bool)
        ensures
            fits == representable(self@, seen_record(*read)),
    {
        if let Some((_, existing)) = read {
            let expires_at = match existing.expires_at {
                Some(time) => time,
                None => SystemTime::unix_epoch(),
            };
            match expires_at.checked_add(lease_skew_tolerance()) {
                None => return false,
                Some(stealable_at) => {
                    if stealable_at.is_after(self.now) {
                        return true;
                    }
                    if existing.epoch == u64::MAX {
                        return false;
                    }
                },
            }
        }
        self.now.checked_add(self.ttl).is_some()
    }
}

impl LeaseClaim {
    /// Take the store's answer to the claim. Finding the lease changed means
    /// that someone else was faster: `Ok(None)`.
    pub fn on_put(self, reply: Result<ObjectMeta, StoreError>) -> (outcome: Result<
        Option<LeaseGuard>,
        CoordError,
    >)
        ensures
            match reply {
                Ok(meta) => outcome matches Ok(Some(guard)) && guard@ == self.contender().claimed(
                    meta.version@,
                    self.claimed_epoch(),
                ),
                Err(StoreError::PreconditionFailed { key, current }) => outcome == Ok::<
                    Option<LeaseGuard>,
                    CoordError,
                >(None),
                Err(error) => outcome == Err::<Option<LeaseGuard>, CoordError>(
                    CoordError::Store(error),
                ),
            },
    {
        proof {
            use_type_invariant(&self);
        }
        match reply {
            Ok(meta) => Ok(
                Some(
                    LeaseGuard::new(
                        self.contender.key.as_str(),
                        self.contender.holder.as_str(),
                        self.contender.purpose.as_str(),
                        meta.version,
                        self.contender.now,
                        self.contender.ttl,
                        self.epoch,
                    ),
                ),
            ),
            Err(StoreError::PreconditionFailed { key: _, current: _ }) => Ok(None),
            Err(error) => Err(CoordError::Store(error)),
        }
    }
}

/// A lease being waited for.
#[derive(Debug, PartialEq, Eq)]
pub struct Acquire {
    key: String,
    holder: String,
    purpose: String,
    ttl: Duration,
    deadline: Instant,
    attempt: u32,
}

/// Who waits for which lease, until when, and how often they have tried; times
/// in nanoseconds.
pub struct AcquireView {
    pub key: Seq<char>,
    pub holder: Seq<char>,
    pub purpose: Seq<char>,
    pub ttl: int,
    pub deadline: int,
    pub attempt: nat,
}

impl View for Acquire {
    type V = AcquireView;

    closed spec fn view(&self) -> AcquireView {
        AcquireView {
            key: self.key@,
            holder: self.holder@,
            purpose: self.purpose@,
            ttl: self.ttl@,
            deadline: self.deadline@,
            attempt: self.attempt as nat,
        }
    }
}

/// A wait whose pause is yet to be drawn.
#[derive(Debug, PartialEq, Eq)]
pub struct AcquireWait {
    acquire: Acquire,
    remaining: Duration,
}

impl AcquireWait {
    /// The wait that goes on after the pause.
    pub closed spec fn acquire(self) -> AcquireView {
        self.acquire@
    }

    /// The time left until the deadline, in nanoseconds.
    pub closed spec fn remaining(self) -> int {
        self.remaining@
    }
}

/// How long to sleep when a pause of `drawn` comes up and `remaining` is left.
pub open spec fn sleep_length(drawn: int, remaining: int) -> int {
    if drawn <= remaining {
        drawn
    } else {
        remaining
    }
}

/// What waiting for a lease does after a try.
#[derive(Debug, PartialEq)]
pub enum AcquireStep {
    /// The wait is over.
    Finished(Result<Option<LeaseGuard>, CoordError>),
    /// The requested pause is to be drawn and handed to
    /// [`AcquireWait::on_backoff`].
    Wait(AcquireWait, BackoffRequest),
}

/// Wait for the lease under `key`, for `wait_up_to` from `now` on.
pub fn acquire(
    key: &str,
    holder: &str,
    purpose: &str,
    ttl: Duration,
    wait_up_to: Duration,
    now: Instant,
) -> (r: Acquire)
    requires
        now@ + wait_up_to@ <= crate::time::duration_max(),
    ensures
        r@ == (AcquireView {
            key: key@,
            holder: holder@,
            purpose: purpose@,
            ttl: ttl@,
            deadline: now@ + wait_up_to@,
            attempt: 0,
        }),
{
    Acquire {
        key: key.to_owned(),
        holder: holder.to_owned(),
        purpose: purpose.to_owned(),
        ttl,
        deadline: now.plus(wait_up_to),
        attempt: 0,
    }
}

impl Acquire {
    /// The key that the lease is kept under.
    pub fn key(&self) -> (key: &str)
        ensures
            key@ == self@.key,
    {
        self.key.as_str()
    }

    /// The next try, with the wall clock at `now`.
    pub fn attempt(&self, now: SystemTime) -> (r: TryAcquire)
        ensures
            r@ == (ContenderView {
                key: self@.key,
                holder: self@.holder,
                purpose: self@.purpose,
                ttl: self@.ttl,
                now: now@,
            }),
    {
        try_acquire(
            self.key.as_str(),
            self.holder.as_str(),
            self.purpose.as_str(),
            self.ttl,
            now,
        )
    }

    /// How many pauses have been taken so far.
    pub fn attempts(&self) -> (attempts: u32)
        ensures
            attempts == self@.attempt,
    {
        self.attempt
    }

    /// Take the outcome of a try that ended when the clock read `now`. A lease
    /// or a failure ends the wait, and so does the deadline, with `Ok(None)`.
    pub fn on_attempt(
        self,
        outcome: Result<Option<LeaseGuard>, CoordError>,
        now: Instant,
    ) -> (step: AcquireStep)
        ensures
            if outcome != Ok::<Option<LeaseGuard>, CoordError>(None) {
                step == AcquireStep::Finished(outcome)
            } else if now@ >= self@.deadline {
                step == AcquireStep::Finished(Ok(None))
            } else {
                step matches AcquireStep::Wait(wait, pause) && wait.acquire() == self@
                    && wait.remaining() == self@.deadline - now@ && pause.attempt == self@.attempt
                    && pause.base@ == 10_000_000 && pause.cap@ == 200_000_000
            },
    {
        match outcome {
            Err(error) => AcquireStep::Finished(Err(error)),
            Ok(Some(guard)) => AcquireStep::Finished(Ok(Some(guard))),
            Ok(None) => {
                if !self.deadline.is_after(now) {
                    return AcquireStep::Finished(Ok(None));
                }
                let pause = BackoffRequest {
                    attempt: self.attempt,
                    base: Duration::from_millis(10),
                    cap: Duration::from_millis(200),
                };
                let remaining = self.deadline.saturating_duration_since(now);
                AcquireStep::Wait(AcquireWait { acquire: self, remaining }, pause)
            },
        }
    }
}

impl AcquireWait {
    /// Take the pause that was drawn: the wait that goes on, and how long to
    /// sleep first. The sleep never reaches past the deadline.
    pub fn on_backoff(self, drawn: Duration) -> (next: (Acquire, Duration))
        requires
            self.acquire().attempt < u32::MAX,
        ensures
            next.0@ == (AcquireView { attempt: self.acquire().attempt + 1, ..self.acquire() }),
            next.1@ == sleep_length(drawn@, self.remaining()),
    {
        let sleep = drawn.min(self.remaining);
        let mut acquire = self.acquire;
        acquire.attempt = acquire.attempt + 1;
        (acquire, sleep)
    }
}

} // verus!
