//! What each step of taking a lease answers, in terms of what the store, the
//! clocks and the contender gave it.

use vstd::prelude::*;

use crate::acquire::{
    acquire, try_acquire, Acquire, AcquirePlan, AcquireStep, AcquireWait, LeaseClaim, TryAcquire,
};
use crate::cas::BackoffRequest;
use crate::error::CoordError;
use crate::guard::LeaseGuard;
use crate::lease::Lease;
use crate::store::{ObjectMeta, PutRequest, StoreError};
use crate::time::{Duration, Instant, SystemTime};

verus! {

/// A try is for what it was asked for, and reads under the key it was given.
pub proof fn law_try_is_for_what_was_asked(
    key: &str,
    holder: &str,
    purpose: &str,
    ttl: Duration,
    now: SystemTime,
    attempt: TryAcquire,
    key_back: &str,
)
    requires
        call_ensures(try_acquire, (key, holder, purpose, ttl, now), attempt),
        call_ensures(TryAcquire::key, (&attempt,), key_back),
    ensures
        key_back@ == key@,
        attempt@.key == key@,
        attempt@.holder == holder@,
        attempt@.purpose == purpose@,
        attempt@.ttl == ttl@,
        attempt@.now == now@,
{
}

/// A try tells the key it is for.
pub proof fn law_try_tells_its_key(attempt: TryAcquire, key: &str)
    requires
        call_ensures(TryAcquire::key, (&attempt,), key),
    ensures
        key@ == attempt@.key,
{
}

/// When a stored lease may be taken over: two seconds after it runs out. One that
/// does not say when it runs out did so at the Unix epoch.
pub open spec fn free_from(lease: Lease) -> int {
    match lease.expires_at {
        Some(time) => time@ + 2_000_000_000,
        None => 2_000_000_000,
    }
}

/// Whether `plan` claims the lease for the contender of `attempt` with `epoch`,
/// over `version`, or over nothing where there is none.
pub open spec fn claims<E: FnOnce(&Lease) -> Vec<u8>>(
    plan: AcquirePlan,
    attempt: TryAcquire,
    encode: E,
    version: Option<Seq<char>>,
    epoch: int,
) -> bool {
    &&& plan matches AcquirePlan::Claim(claim, request)
    &&& claim.contender() == attempt@
    &&& claim.claimed_epoch() == epoch
    &&& crate::guard_step_laws::asks_for(
        request,
        encode,
        attempt@.key,
        version,
        attempt@.holder,
        attempt@.purpose,
        Some(attempt@.now),
        attempt@.now + attempt@.ttl,
        epoch,
    )
}

/// What a try does with what it read, case by case. A lease that was never there
/// is claimed with epoch zero, by creating it. One that may be taken over at the
/// contender's time is claimed with the next epoch, over the version read, and
/// one that may not is left alone. A read that failed is the try's failure.
pub proof fn law_try_goes_by_the_record<E: FnOnce(&Lease) -> Vec<u8>>(
    attempt: TryAcquire,
    current: Result<Option<(ObjectMeta, Lease)>, CoordError>,
    encode: E,
    plan: AcquirePlan,
)
    requires
        call_ensures(TryAcquire::on_current::<E>, (attempt, current, encode), plan),
    ensures
        match current {
            Err(error) => plan == AcquirePlan::Finished(Err(error)),
            Ok(None) => claims(plan, attempt, encode, None, 0),
            Ok(Some((meta, lease))) => if attempt@.now >= free_from(lease) {
                claims(plan, attempt, encode, Some(meta.version@), lease.epoch + 1)
            } else {
                plan == AcquirePlan::Finished(Ok(None))
            },
        },
{
    if let AcquirePlan::Claim(claim, request) = plan {
        if let Ok(read) = current {
            let record = attempt@.claim_record(claim.claimed_epoch());
            crate::guard_step_laws::lemma_asks_for(
                request,
                encode,
                attempt@.key,
                crate::cas::seen_version(read),
                record,
            );
        }
    }
}

/// Whether the times and the epoch that a try has to compute after reading
/// `read` are within 64 bits.
pub open spec fn within_limits(attempt: TryAcquire, read: Option<(ObjectMeta, Lease)>) -> bool {
    let expiry_fits = attempt@.now + attempt@.ttl < (i64::MAX + 1) * 1_000_000_000;
    match read {
        None => expiry_fits,
        Some((_, lease)) => free_from(lease) < (i64::MAX + 1) * 1_000_000_000 && (attempt@.now
            < free_from(lease) || (lease.epoch < u64::MAX && expiry_fits)),
    }
}

/// A try can go by any read that is within limits.
pub proof fn law_any_read_within_limits_can_be_taken<E: FnOnce(&Lease) -> Vec<u8>>(
    attempt: TryAcquire,
    current: Result<Option<(ObjectMeta, Lease)>, CoordError>,
    encode: E,
)
    requires
        current matches Ok(read) ==> within_limits(attempt, read),
        forall|lease: &Lease| encode.requires((lease,)),
    ensures
        call_requires(TryAcquire::on_current::<E>, (attempt, current, encode)),
{
}

/// What a try does with raw contents: it fails with the store's error or the
/// decoder's, and otherwise does with the lease decoded, or with none, what it
/// does with a lease read; unless a time or an epoch is past its limit, and then
/// there is no plan.
pub proof fn law_try_goes_by_what_was_decoded<D, E>(
    attempt: TryAcquire,
    reply: Result<Option<(ObjectMeta, Vec<u8>)>, StoreError>,
    decode: D,
    encode: E,
    plan: Option<AcquirePlan>,
) where D: FnOnce(Vec<u8>) -> Result<Lease, prost::DecodeError>, E: FnOnce(&Lease) -> Vec<u8>
    requires
        call_ensures(TryAcquire::on_read::<D, E>, (attempt, reply, decode, encode), plan),
    ensures
        match reply {
            Err(error) => plan == Some(AcquirePlan::Finished(Err(CoordError::Store(error)))),
            Ok(None) => if within_limits(attempt, None) {
                plan is Some && claims(plan->0, attempt, encode, None, 0)
            } else {
                plan is None
            },
            Ok(Some((meta, body))) => {
                ||| exists|error: prost::DecodeError|
                    {
                        &&& #[trigger] decode.ensures((body,), Err(error))
                        &&& plan == Some(AcquirePlan::Finished(Err(CoordError::Decode(error))))
                    }
                ||| exists|lease: Lease|
                    {
                        &&& #[trigger] decode.ensures((body,), Ok(lease))
                        &&& if !within_limits(attempt, Some((meta, lease))) {
                            plan is None
                        } else if attempt@.now >= free_from(lease) {
                            plan is Some && claims(
                                plan->0,
                                attempt,
                                encode,
                                Some(meta.version@),
                                lease.epoch + 1,
                            )
                        } else {
                            plan == Some(AcquirePlan::Finished(Ok(None)))
                        }
                    }
            },
        },
{
    let current = choose|current: Result<Option<(ObjectMeta, Lease)>, CoordError>|
        {
            &&& #[trigger] crate::message::fetched(reply, decode, current)
            &&& match plan {
                None => current matches Ok(read) && !crate::acquire::representable(
                    attempt@,
                    crate::acquire::seen_record(read),
                ),
                Some(plan) => {
                    &&& current matches Ok(read) ==> crate::acquire::representable(
                        attempt@,
                        crate::acquire::seen_record(read),
                    )
                    &&& crate::acquire::attempted(attempt@, current, encode, plan)
                },
            }
        };
    if let Some(AcquirePlan::Claim(claim, request)) = plan {
        if let Ok(read) = current {
            crate::guard_step_laws::lemma_asks_for(
                request,
                encode,
                attempt@.key,
                crate::cas::seen_version(read),
                attempt@.claim_record(claim.claimed_epoch()),
            );
        }
    }
    if let Ok(Some((meta, body))) = reply {
        match current {
            Ok(Some((_, lease))) => {
                assert(decode.ensures((body,), Ok(lease)));
            },
            Err(CoordError::Decode(error)) => {
                assert(decode.ensures((body,), Err(error)));
            },
            _ => {},
        }
    }
}

/// The answer to a claim decides, case by case. One that was written gives a
/// guard of the contender's lease, at the version reported, good for the
/// contender's ttl from its time, with the claimed epoch as its token and
/// nothing in doubt. A collision gives no guard, and any other failure is the
/// try's own.
pub proof fn law_claim_goes_by_the_answer(
    claim: LeaseClaim,
    reply: Result<ObjectMeta, StoreError>,
    outcome: Result<Option<LeaseGuard>, CoordError>,
)
    requires
        call_ensures(LeaseClaim::on_put, (claim, reply), outcome),
    ensures
        match reply {
            Ok(meta) => {
                &&& outcome matches Ok(Some(guard))
                &&& guard@.key == claim.contender().key
                &&& guard@.holder == claim.contender().holder
                &&& guard@.purpose == claim.contender().purpose
                &&& guard@.version == meta.version@
                &&& guard@.expires_at == claim.contender().now + claim.contender().ttl
                &&& guard@.epoch == claim.claimed_epoch()
                &&& guard@.fence_token == claim.claimed_epoch()
                &&& !guard@.released
                &&& guard@.doubtful.len() == 0
            },
            Err(error) => if error is PreconditionFailed {
                outcome == Ok::<Option<LeaseGuard>, CoordError>(None)
            } else {
                outcome == Err::<Option<LeaseGuard>, CoordError>(CoordError::Store(error))
            },
        },
        call_requires(LeaseClaim::on_put, (claim, reply)),
{
}

/// A whole try that wins, as its contender sees it: the guard tells the holder
/// and the key that were asked for, an expiry `ttl` after the time of the try,
/// and the token that the claim asked the store to write.
pub proof fn law_winner_gets_what_it_asked_for<E: FnOnce(&Lease) -> Vec<u8>>(
    key: &str,
    holder: &str,
    purpose: &str,
    ttl: Duration,
    now: SystemTime,
    attempt: TryAcquire,
    current: Result<Option<(ObjectMeta, Lease)>, CoordError>,
    encode: E,
    claim: LeaseClaim,
    request: PutRequest,
    meta: ObjectMeta,
    guard: LeaseGuard,
    key_back: &str,
    holder_back: &str,
    expires_at: SystemTime,
    token: u64,
)
    requires
        call_ensures(try_acquire, (key, holder, purpose, ttl, now), attempt),
        call_ensures(
            TryAcquire::on_current::<E>,
            (attempt, current, encode),
            AcquirePlan::Claim(claim, request),
        ),
        call_ensures(LeaseClaim::on_put, (claim, Ok(meta)), Ok(Some(guard))),
        call_ensures(LeaseGuard::key, (&guard,), key_back),
        call_ensures(LeaseGuard::holder, (&guard,), holder_back),
        call_ensures(LeaseGuard::expires_at, (&guard,), expires_at),
        call_ensures(LeaseGuard::fencing_token, (&guard,), token),
    ensures
        key_back@ == key@,
        holder_back@ == holder@,
        expires_at@ - now@ == ttl@,
        current matches Ok(None) ==> token == 0,
        current matches Ok(Some((_, lease))) ==> token == lease.epoch + 1 && now@ >= free_from(
            lease,
        ),
        request.key@ == key@,
{
    law_try_goes_by_the_record(attempt, current, encode, AcquirePlan::Claim(claim, request));
}

/// A wait is for what it was asked for, until `wait_up_to` after it started, with
/// no pause taken. It can be started whenever that is within 64 bits.
pub proof fn law_wait_is_for_what_was_asked(
    key: &str,
    holder: &str,
    purpose: &str,
    ttl: Duration,
    wait_up_to: Duration,
    now: Instant,
    wait: Acquire,
    key_back: &str,
    attempts: u32,
)
    requires
        call_ensures(acquire, (key, holder, purpose, ttl, wait_up_to, now), wait),
        call_ensures(Acquire::key, (&wait,), key_back),
        call_ensures(Acquire::attempts, (&wait,), attempts),
    ensures
        key_back@ == key@,
        attempts == 0,
        wait@.key == key@,
        wait@.holder == holder@,
        wait@.purpose == purpose@,
        wait@.ttl == ttl@,
        wait@.deadline - now@ == wait_up_to@,
        wait@.attempt == 0,
        now@ + wait_up_to@ < (u64::MAX + 1) * 1_000_000_000 ==> call_requires(
            acquire,
            (key, holder, purpose, ttl, wait_up_to, now),
        ),
{
}

/// Every try of a wait is for what the wait is for, at the time of the try; and a
/// wait tells its key and how many pauses it has taken.
pub proof fn law_wait_tries_for_what_was_asked(
    wait: Acquire,
    now: SystemTime,
    attempt: TryAcquire,
    key: &str,
    attempts: u32,
)
    requires
        call_ensures(Acquire::attempt, (&wait, now), attempt),
        call_ensures(Acquire::key, (&wait,), key),
        call_ensures(Acquire::attempts, (&wait,), attempts),
    ensures
        attempt@.key == wait@.key,
        attempt@.holder == wait@.holder,
        attempt@.purpose == wait@.purpose,
        attempt@.ttl == wait@.ttl,
        attempt@.now == now@,
        key@ == wait@.key,
        attempts == wait@.attempt,
{
}

/// What a wait does after a try, case by case: a guard or a failure is its
/// outcome, whatever the clock reads. Without one it ends with `Ok(None)` exactly
/// if the deadline has come, and otherwise asks for a pause that starts from the
/// number of pauses taken, with the time that is left.
pub proof fn law_wait_goes_by_the_try(
    wait: Acquire,
    outcome: Result<Option<LeaseGuard>, CoordError>,
    now: Instant,
    step: AcquireStep,
)
    requires
        call_ensures(Acquire::on_attempt, (wait, outcome, now), step),
    ensures
        match outcome {
            Err(error) => step == AcquireStep::Finished(Err(error)),
            Ok(Some(guard)) => step == AcquireStep::Finished(Ok(Some(guard))),
            Ok(None) => match step {
                AcquireStep::Finished(ended) => ended == Ok::<Option<LeaseGuard>, CoordError>(None)
                    && wait@.deadline <= now@,
                AcquireStep::Wait(paused, pause) => {
                    &&& now@ < wait@.deadline
                    &&& now@ + paused.remaining() == wait@.deadline
                    &&& paused.acquire() == wait@
                    &&& pause.attempt == wait@.attempt
                    &&& pause.base@ == 10_000_000
                    &&& pause.cap@ == 200_000_000
                },
            },
        },
        call_requires(Acquire::on_attempt, (wait, outcome, now)),
{
}

/// A pause is the one drawn or the time that is left, whichever is shorter, and
/// the wait goes on as it was with one pause more.
pub proof fn law_wait_goes_on_after_the_pause(
    paused: AcquireWait,
    drawn: Duration,
    next: Acquire,
    sleep: Duration,
)
    requires
        call_ensures(AcquireWait::on_backoff, (paused, drawn), (next, sleep)),
    ensures
        sleep@ <= drawn@,
        sleep@ <= paused.remaining(),
        sleep@ == drawn@ || sleep@ == paused.remaining(),
        next@.key == paused.acquire().key,
        next@.holder == paused.acquire().holder,
        next@.purpose == paused.acquire().purpose,
        next@.ttl == paused.acquire().ttl,
        next@.deadline == paused.acquire().deadline,
        next@.attempt == paused.acquire().attempt + 1,
        paused.acquire().attempt < u32::MAX ==> call_requires(
            AcquireWait::on_backoff,
            (paused, drawn),
        ),
{
}

/// One whole round of a wait that found nothing: the sleep ends by the deadline
/// that the wait was started with, and the next round is for the same, with one
/// pause more.
pub proof fn law_round_of_a_wait(
    wait: Acquire,
    now: Instant,
    paused: AcquireWait,
    pause: BackoffRequest,
    drawn: Duration,
    next: Acquire,
    sleep: Duration,
)
    requires
        call_ensures(
            Acquire::on_attempt,
            (wait, Ok(None), now),
            AcquireStep::Wait(paused, pause),
        ),
        call_ensures(AcquireWait::on_backoff, (paused, drawn), (next, sleep)),
    ensures
        now@ + sleep@ <= wait@.deadline,
        sleep@ <= drawn@,
        next@.key == wait@.key,
        next@.holder == wait@.holder,
        next@.purpose == wait@.purpose,
        next@.ttl == wait@.ttl,
        next@.deadline == wait@.deadline,
        next@.attempt == wait@.attempt + 1,
{
}

} // verus!
