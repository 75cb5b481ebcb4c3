//! What each call on a held lease does: heartbeats, renewals, the background task
//! and giving the lease up, in terms of what goes in and what can be seen after.

use vstd::prelude::*;

use crate::error::CoordError;
use crate::guard::{
    GuardView, Heartbeat, HeartbeatRound, HeartbeatTask, LeaseGuard, LeaseRelease, ReleaseAnswer,
    ReleaseReread, ReleaseStep, Renewal, RenewalCheck, RenewalProgress,
};
use crate::lease::Lease;
use crate::store::{ObjectMeta, PutMode, PutRequest, StoreError, Version};
use crate::time::{Duration, SystemTime};

verus! {

/// Whether a request asks for a lease with exactly these contents to be written
/// under `key`, over `version`, or over nothing where there is none.
pub open spec fn asks_for<E: FnOnce(&Lease) -> Vec<u8>>(
    request: PutRequest,
    encode: E,
    key: Seq<char>,
    version: Option<Seq<char>>,
    holder: Seq<char>,
    purpose: Seq<char>,
    acquired_at: Option<int>,
    expires_at: int,
    epoch: int,
) -> bool {
    &&& request.key@ == key
    &&& match request.mode {
        PutMode::Create => version is None,
        PutMode::Update(over) => version == Some(over@),
    }
    &&& exists|lease: Lease|
        #![trigger encode.ensures((&lease,), request.body)]
        {
            &&& encode.ensures((&lease,), request.body)
            &&& lease.holder@ == holder
            &&& lease.purpose@ == purpose
            &&& lease.acquired_at is Some <==> acquired_at is Some
            &&& lease.acquired_at is Some ==> lease.acquired_at->0@ == acquired_at->0
            &&& lease.expires_at is Some && lease.expires_at->0@ == expires_at
            &&& lease.epoch == epoch
        }
}

/// A request that writes a lease record asks for that record's contents.
pub proof fn lemma_asks_for<E: FnOnce(&Lease) -> Vec<u8>>(
    request: PutRequest,
    encode: E,
    key: Seq<char>,
    version: Option<Seq<char>>,
    record: crate::lease::LeaseView,
)
    requires
        crate::lease::writes_lease(request, key, version, record, encode),
        record.expires_at is Some,
    ensures
        asks_for(
            request,
            encode,
            key,
            version,
            record.holder,
            record.purpose,
            record.acquired_at,
            record.expires_at->0,
            record.epoch as int,
        ),
{
    let lease = choose|lease: Lease|
        #![trigger encode.ensures((&lease,), request.body)]
        lease@ == record && encode.ensures((&lease,), request.body);
    assert(encode.ensures((&lease,), request.body));
    assert(lease@.holder == record.holder && lease@.purpose == record.purpose);
    assert(lease@.acquired_at == record.acquired_at && lease@.expires_at == record.expires_at);
    assert(lease@.epoch == record.epoch);
}

/// The guard of a lease just taken tells what it was taken with: its key, its
/// holder, its expiry `ttl` after `now`, and its epoch, which is its fencing
/// token too. It has nothing in doubt and was not given up.
pub proof fn law_guard_tells_what_was_taken(
    key: &str,
    holder: &str,
    purpose: &str,
    version: Version,
    now: SystemTime,
    ttl: Duration,
    epoch: u64,
    guard: LeaseGuard,
    key_back: &str,
    holder_back: &str,
    expires_at: SystemTime,
    token: u64,
    epoch_back: u64,
)
    requires
        call_ensures(LeaseGuard::new, (key, holder, purpose, version, now, ttl, epoch), guard),
        call_ensures(LeaseGuard::key, (&guard,), key_back),
        call_ensures(LeaseGuard::holder, (&guard,), holder_back),
        call_ensures(LeaseGuard::expires_at, (&guard,), expires_at),
        call_ensures(LeaseGuard::fencing_token, (&guard,), token),
        call_ensures(LeaseGuard::epoch, (&guard,), epoch_back),
    ensures
        key_back@ == key@,
        holder_back@ == holder@,
        expires_at@ - now@ == ttl@,
        token == epoch,
        epoch_back == epoch,
        guard@.purpose == purpose@,
        guard@.version == version@,
        guard@.doubtful.len() == 0,
        !guard@.released,
        now@ + ttl@ < (i64::MAX + 1) * 1_000_000_000 ==> call_requires(
            LeaseGuard::new,
            (key, holder, purpose, version, now, ttl, epoch),
        ),
{
}

/// What a guard tells of itself is its own, and its token is no later than its
/// epoch.
pub proof fn law_guard_tells_its_own(
    guard: LeaseGuard,
    key: &str,
    holder: &str,
    expires_at: SystemTime,
    token: u64,
    epoch: u64,
)
    requires
        call_ensures(LeaseGuard::key, (&guard,), key),
        call_ensures(LeaseGuard::holder, (&guard,), holder),
        call_ensures(LeaseGuard::expires_at, (&guard,), expires_at),
        call_ensures(LeaseGuard::fencing_token, (&guard,), token),
        call_ensures(LeaseGuard::epoch, (&guard,), epoch),
    ensures
        key@ == guard@.key,
        holder@ == guard@.holder,
        expires_at@ == guard@.expires_at,
        token == guard@.fence_token,
        epoch == guard@.epoch,
        token <= epoch,
{
}

/// Whether two states of a guard are of one acquisition: key, holder, purpose and
/// fencing token agree.
pub open spec fn same_acquisition(a: GuardView, b: GuardView) -> bool {
    &&& a.key == b.key
    &&& a.holder == b.holder
    &&& a.purpose == b.purpose
    &&& a.fence_token == b.fence_token
}

/// A heartbeat takes the next epoch and asks for the guard's own lease to be
/// written anew, from `now` for `ttl`, over the version the guard knows. The
/// guard's version, expiry and token stay as they were, and the heartbeat is in
/// doubt after all that was in doubt before. It can be sent whenever epoch and
/// expiry are within their limits.
pub proof fn law_heartbeat_asks_for_the_lease_anew<E: FnOnce(&Lease) -> Vec<u8>>(
    guard: &mut LeaseGuard,
    now: SystemTime,
    ttl: Duration,
    encode: E,
    sent: Heartbeat,
    request: PutRequest,
)
    requires
        call_ensures(LeaseGuard::heartbeat::<E>, (guard, now, ttl, encode), (sent, request)),
    ensures
        ({
            let before = old(guard)@;
            let after = final(guard)@;
            &&& same_acquisition(before, after)
            &&& after.epoch == before.epoch + 1
            &&& after.version == before.version
            &&& after.expires_at == before.expires_at
            &&& after.released == before.released
            &&& after.doubtful.len() == before.doubtful.len() + 1
            &&& forall|i: int|
                0 <= i < before.doubtful.len() ==> #[trigger] after.doubtful[i]
                    == before.doubtful[i]
            &&& sent@.expires_at == now@ + ttl@
            &&& sent@.epoch == before.epoch + 1
            &&& asks_for(
                request,
                encode,
                before.key,
                Some(before.version),
                before.holder,
                before.purpose,
                Some(now@),
                now@ + ttl@,
                (before.epoch + 1) as int,
            )
        }),
        ({
            let doubt = final(guard)@.doubtful.last();
            &&& doubt.holder == old(guard)@.holder
            &&& doubt.purpose == old(guard)@.purpose
            &&& doubt.acquired_at == Some(now@)
            &&& doubt.expires_at == Some(now@ + ttl@)
            &&& doubt.epoch == old(guard)@.epoch + 1
        }),
{
    lemma_asks_for(
        request,
        encode,
        old(guard)@.key,
        Some(old(guard)@.version),
        old(guard)@.heartbeat_record(now@, ttl@),
    );
}

/// A heartbeat can be sent whenever the next epoch and the new expiry are within
/// 64 bits.
pub proof fn law_heartbeat_can_be_sent<E: FnOnce(&Lease) -> Vec<u8>>(
    guard: &mut LeaseGuard,
    now: SystemTime,
    ttl: Duration,
    encode: E,
)
    requires
        old(guard)@.epoch + 1 <= u64::MAX,
        now@ + ttl@ < (i64::MAX + 1) * 1_000_000_000,
        forall|lease: &Lease| encode.requires((lease,)),
    ensures
        call_requires(LeaseGuard::heartbeat::<E>, (guard, now, ttl, encode)),
{
}

/// The answer to a heartbeat decides, case by case. On a success the guard is at
/// the version reported, good until exactly the heartbeat's expiry, with nothing
/// in doubt. On a collision the lease is lost, and that heartbeat is not in
/// doubt. Any other failure is reported as it is, and leaves the guard as it
/// was. The epoch is never changed by an answer, nor is what the acquisition
/// fixed.
pub proof fn law_guard_goes_by_the_answer(
    guard: &mut LeaseGuard,
    heartbeat: Heartbeat,
    reply: Result<ObjectMeta, StoreError>,
    outcome: Result<(), CoordError>,
)
    requires
        call_ensures(LeaseGuard::on_heartbeat, (guard, heartbeat, reply), outcome),
    ensures
        ({
            let before = old(guard)@;
            let after = final(guard)@;
            &&& same_acquisition(before, after)
            &&& after.epoch == before.epoch
            &&& after.released == before.released
            &&& match reply {
                Ok(meta) => {
                    &&& outcome is Ok
                    &&& after.version == meta.version@
                    &&& after.expires_at == heartbeat@.expires_at
                    &&& after.doubtful.len() == 0
                },
                Err(error) => {
                    &&& after.version == before.version
                    &&& after.expires_at == before.expires_at
                    &&& if error is PreconditionFailed {
                        &&& outcome == Err::<(), CoordError>(CoordError::LeaseLost)
                        &&& if before.doubtful.len() > 0 && before.doubtful[before.doubtful.len()
                            - 1].epoch == heartbeat@.epoch {
                            after.doubtful =~= before.doubtful.subrange(
                                0,
                                before.doubtful.len() - 1,
                            )
                        } else {
                            after.doubtful == before.doubtful
                        }
                    } else {
                        &&& outcome == Err::<(), CoordError>(CoordError::Store(error))
                        &&& after.doubtful == before.doubtful
                    }
                },
            }
        }),
{
}

/// One whole heartbeat, as its holder sees it: if the store answers that it was
/// written, the guard tells the expiry `ttl` after the heartbeat was sent,
/// however many heartbeats came before; if not, it tells the expiry it told
/// before. The token is the same either way, and the epoch is one more.
pub proof fn law_heartbeat_moves_the_expiry<E: FnOnce(&Lease) -> Vec<u8>>(
    first: &mut LeaseGuard,
    now: SystemTime,
    ttl: Duration,
    encode: E,
    sent: Heartbeat,
    request: PutRequest,
    second: &mut LeaseGuard,
    reply: Result<ObjectMeta, StoreError>,
    outcome: Result<(), CoordError>,
    expiry_before: SystemTime,
    expiry_after: SystemTime,
    token_before: u64,
    token_after: u64,
    epoch_before: u64,
    epoch_after: u64,
)
    requires
        call_ensures(LeaseGuard::expires_at, (old(first),), expiry_before),
        call_ensures(LeaseGuard::fencing_token, (old(first),), token_before),
        call_ensures(LeaseGuard::epoch, (old(first),), epoch_before),
        call_ensures(LeaseGuard::heartbeat::<E>, (first, now, ttl, encode), (sent, request)),
        *old(second) == *final(first),
        call_ensures(LeaseGuard::on_heartbeat, (second, sent, reply), outcome),
        call_ensures(LeaseGuard::expires_at, (final(second),), expiry_after),
        call_ensures(LeaseGuard::fencing_token, (final(second),), token_after),
        call_ensures(LeaseGuard::epoch, (final(second),), epoch_after),
    ensures
        outcome is Ok <==> reply is Ok,
        reply is Ok ==> expiry_after@ - now@ == ttl@,
        reply is Err ==> expiry_after@ == expiry_before@,
        token_after == token_before,
        epoch_after == epoch_before + 1,
{
}

/// Giving a lease up marks the guard and changes nothing else of it, keeps all
/// that is in doubt for the release, and asks for a lease that is no one's and
/// ran out at the Unix epoch, with the guard's own purpose and epoch, over the
/// version the guard knows.
pub proof fn law_release_asks_for_no_ones_lease<E: FnOnce(&Lease) -> Vec<u8>>(
    guard: &mut LeaseGuard,
    encode: E,
    release: LeaseRelease,
    request: PutRequest,
)
    requires
        call_ensures(LeaseGuard::release::<E>, (guard, encode), (release, request)),
    ensures
        ({
            let before = old(guard)@;
            let after = final(guard)@;
            &&& same_acquisition(before, after)
            &&& after.released
            &&& after.epoch == before.epoch
            &&& after.version == before.version
            &&& after.expires_at == before.expires_at
            &&& after.doubtful == before.doubtful
            &&& release@.key == before.key
            &&& release@.doubtful == before.doubtful
            &&& asks_for(
                request,
                encode,
                before.key,
                Some(before.version),
                Seq::empty(),
                before.purpose,
                None,
                0,
                before.epoch as int,
            )
        }),
{
    lemma_asks_for(
        request,
        encode,
        old(guard)@.key,
        Some(old(guard)@.version),
        old(guard)@.release_record(),
    );
}

/// A guard that goes out of use asks for its lease to be given up exactly if that
/// has not been done yet, and is given up after that. What it asks for is what
/// giving the lease up asks for.
pub proof fn law_drop_asks_once<E: FnOnce(&Lease) -> Vec<u8>>(
    guard: &mut LeaseGuard,
    encode: E,
    asked: Option<PutRequest>,
)
    requires
        call_ensures(LeaseGuard::release_on_drop::<E>, (guard, encode), asked),
    ensures
        ({
            let before = old(guard)@;
            let after = final(guard)@;
            &&& asked is Some <==> !before.released
            &&& after.released
            &&& same_acquisition(before, after)
            &&& after.epoch == before.epoch
            &&& after.version == before.version
            &&& after.expires_at == before.expires_at
            &&& after.doubtful == before.doubtful
            &&& asked matches Some(request) ==> asks_for(
                request,
                encode,
                before.key,
                Some(before.version),
                Seq::empty(),
                before.purpose,
                None,
                0,
                before.epoch as int,
            )
        }),
{
    if let Some(request) = asked {
        lemma_asks_for(
            request,
            encode,
            old(guard)@.key,
            Some(old(guard)@.version),
            old(guard)@.release_record(),
        );
    }
}

/// A release is confirmed only by an answer that tells what became of the lease.
/// On its own write it succeeds if the write was made, if the lease is gone, or
/// if it collided with nothing in doubt; if it collided with something in doubt
/// the record is to be read, and nothing is said yet. Any other reply leaves open
/// whether the write was made, and is the release's failure, with that very
/// error, whatever is in doubt.
pub proof fn law_release_goes_by_the_answer(
    release: LeaseRelease,
    reply: Result<ObjectMeta, StoreError>,
    step: ReleaseStep,
)
    requires
        call_ensures(LeaseRelease::on_put, (release, reply), step),
    ensures
        reply is Ok ==> step == ReleaseStep::Finished(Ok(())),
        reply matches Err(error) ==> {
            &&& error is NotFound ==> step == ReleaseStep::Finished(Ok(()))
            &&& error is PreconditionFailed && release@.doubtful.len() == 0 ==> step
                == ReleaseStep::Finished(Ok(()))
            &&& error is PreconditionFailed && release@.doubtful.len() > 0 ==> {
                &&& step matches ReleaseStep::Reread(again)
                &&& again.release().key == release@.key
                &&& again.release().doubtful == release@.doubtful
                &&& again.refusal() == error
            }
            &&& error is Retryable || error is Other ==> step == ReleaseStep::Finished(
                Err(CoordError::Store(error)),
            )
        },
        step == ReleaseStep::Finished(Ok(())) ==> match reply {
            Ok(_) => true,
            Err(error) => error is PreconditionFailed || error is NotFound,
        },
{
}

/// Whether a lease has not run out when the clock reads `now`. One that does not
/// say when it runs out did so at the Unix epoch.
pub open spec fn has_not_run_out(lease: Lease, now: int) -> bool {
    match lease.expires_at {
        Some(time) => now < time@,
        None => now < 0,
    }
}

/// What a release that had to read the record answers, case by case. It fails,
/// with the store's refusal of its write, exactly if the record read is that of
/// a heartbeat in doubt and has not run out. It succeeds on any other record, on
/// none, and on contents that are no lease. If the read failed it is handed back
/// as it was, with the error.
pub proof fn law_release_goes_by_what_was_read(
    again: ReleaseReread,
    current: Result<Option<(ObjectMeta, Lease)>, CoordError>,
    now: SystemTime,
    answer: ReleaseAnswer,
)
    requires
        call_ensures(ReleaseReread::on_current, (again, current, now), answer),
    ensures
        match current {
            Ok(Some((_, lease))) => if again.release().doubtful.contains(lease@)
                && has_not_run_out(lease, now@) {
                answer == ReleaseAnswer::Finished(Err(CoordError::Store(again.refusal())))
            } else {
                answer == ReleaseAnswer::Finished(Ok(()))
            },
            Ok(None) => answer == ReleaseAnswer::Finished(Ok(())),
            Err(error) => if error is Decode || (error is Store && error->Store_0 is NotFound) {
                answer == ReleaseAnswer::Finished(Ok(()))
            } else {
                answer == ReleaseAnswer::Unread(again, error)
            },
        },
{
}

/// What a release that had to read the record answers to raw contents: as to what
/// the decoder makes of them. The record is read under the lease's own key.
pub proof fn law_release_goes_by_what_was_decoded<D>(
    again: ReleaseReread,
    key: &str,
    reply: Result<Option<(ObjectMeta, Vec<u8>)>, StoreError>,
    decode: D,
    now: SystemTime,
    answer: ReleaseAnswer,
) where D: FnOnce(Vec<u8>) -> Result<Lease, prost::DecodeError>
    requires
        call_ensures(ReleaseReread::key, (&again,), key),
        call_ensures(ReleaseReread::on_read::<D>, (again, reply, decode, now), answer),
    ensures
        key@ == again.release().key,
        match reply {
            Ok(None) => answer == ReleaseAnswer::Finished(Ok(())),
            Err(error) => if error is NotFound {
                answer == ReleaseAnswer::Finished(Ok(()))
            } else {
                answer == ReleaseAnswer::Unread(again, CoordError::Store(error))
            },
            Ok(Some((_, body))) => {
                ||| answer == ReleaseAnswer::Finished(Ok(())) && exists|
                    error: prost::DecodeError,
                | #[trigger] decode.ensures((body,), Err(error))
                ||| exists|lease: Lease|
                    {
                        &&& #[trigger] decode.ensures((body,), Ok(lease))
                        &&& if again.release().doubtful.contains(lease@) && has_not_run_out(
                            lease,
                            now@,
                        ) {
                            answer == ReleaseAnswer::Finished(
                                Err(CoordError::Store(again.refusal())),
                            )
                        } else {
                            answer == ReleaseAnswer::Finished(Ok(()))
                        }
                    }
            },
        },
{
    let current = choose|current: Result<Option<(ObjectMeta, Lease)>, CoordError>|
        {
            &&& #[trigger] crate::message::fetched(reply, decode, current)
            &&& match again.release().reread(again.refusal(), current, now@) {
                Some(outcome) => answer == ReleaseAnswer::Finished(outcome),
                None => current matches Err(error) && answer == ReleaseAnswer::Unread(
                    again,
                    error,
                ),
            }
        };
    if let Ok(Some((meta, body))) = reply {
        match current {
            Ok(Some((_, lease))) => {
                assert(decode.ensures((body,), Ok(lease)));
            },
            Err(CoordError::Decode(error)) => {
                assert(decode.ensures((body,), Err(error)));
            },
            _ => {},
        }
    }
}

/// A renewal for `ttl` asks for heartbeats of `ttl`, for a margin of a third of
/// it to the nanosecond, and for no more than two heartbeats, whatever state the
/// guard is in.
pub proof fn law_renewal_starts_with_two_heartbeats(
    guard: LeaseGuard,
    ttl: Duration,
    renewal: Renewal,
    ttl_back: Duration,
    margin: Duration,
)
    requires
        call_ensures(LeaseGuard::renew_if_needed, (&guard, ttl), renewal),
        call_ensures(Renewal::ttl, (&renewal,), ttl_back),
        call_ensures(Renewal::margin, (&renewal,), margin),
    ensures
        ttl_back@ == ttl@,
        3 * margin@ <= ttl@ < 3 * margin@ + 3,
        renewal@.ttl == ttl@,
        renewal@.margin == margin@,
        renewal@.heartbeats_left == 2,
{
}

/// A look at the clock reports a lease usable exactly if the expiry that the
/// guard tells is later than the clock by more than the margin, whatever else is
/// so of the guard: whatever it has in doubt, and whether or not it was given
/// up. Otherwise a heartbeat is to be sent while there is one left, which is then
/// one less, and if there is none the lease is reported not usable.
pub proof fn law_renewal_goes_by_the_clock(
    renewal: Renewal,
    guard: LeaseGuard,
    now: SystemTime,
    check: RenewalCheck,
    margin: Duration,
    expires_at: SystemTime,
)
    requires
        call_ensures(LeaseGuard::expires_at, (&guard,), expires_at),
        call_ensures(Renewal::margin, (&renewal,), margin),
        call_ensures(Renewal::check, (renewal, &guard, now), check),
    ensures
        check == RenewalCheck::Finished(true) <==> expires_at@ - now@ > margin@,
        check == RenewalCheck::Finished(false) <==> expires_at@ - now@ <= margin@
            && renewal@.heartbeats_left == 0,
        check is Heartbeat <==> expires_at@ - now@ <= margin@ && renewal@.heartbeats_left > 0,
        check matches RenewalCheck::Heartbeat(next) ==> {
            &&& next@.ttl == renewal@.ttl
            &&& next@.margin == margin@
            &&& next@.heartbeats_left + 1 == renewal@.heartbeats_left
        },
        now@ + margin@ < (i64::MAX + 1) * 1_000_000_000 ==> call_requires(
            Renewal::check,
            (renewal, &guard, now),
        ),
{
}

/// A renewal tells its own ttl and margin.
pub proof fn law_renewal_tells_its_own(renewal: Renewal, ttl: Duration, margin: Duration)
    requires
        call_ensures(Renewal::ttl, (&renewal,), ttl),
        call_ensures(Renewal::margin, (&renewal,), margin),
    ensures
        ttl@ == renewal@.ttl,
        margin@ == renewal@.margin,
{
}

/// After a heartbeat that succeeded a renewal looks at the clock again, as it
/// was; a lost lease ends it with `false`, and any other failure ends it with
/// that failure. It never ends with `true` without a look at the clock.
pub proof fn law_renewal_goes_by_the_outcome(
    renewal: Renewal,
    outcome: Result<(), CoordError>,
    progress: RenewalProgress,
)
    requires
        call_ensures(Renewal::on_heartbeat, (renewal, outcome), progress),
    ensures
        outcome is Ok ==> progress == RenewalProgress::Check(renewal),
        outcome matches Err(error) ==> if error is LeaseLost {
            progress == RenewalProgress::Finished(Ok(false))
        } else {
            progress == RenewalProgress::Finished(Err(error))
        },
        progress != RenewalProgress::Finished(Ok(true)),
{
}

/// A background task sleeps for the period it was made with, wakes to a heartbeat
/// of the length it was made with exactly if the lease was not given up, and
/// sleeps for the same period again unless the heartbeat found the lease lost,
/// which it marks on the guard. Nothing else about the guard is changed, and no
/// other outcome ends the task.
pub proof fn law_task_goes_round(
    every: Duration,
    ttl: Duration,
    task: HeartbeatTask,
    sleep: Duration,
    found: LeaseGuard,
    woken: Option<HeartbeatRound>,
    length: Duration,
    guard: &mut LeaseGuard,
    outcome: Result<(), CoordError>,
    next: Option<HeartbeatTask>,
    sleep_again: Duration,
)
    requires
        call_ensures(LeaseGuard::spawn_heartbeat, (every, ttl), task),
        call_ensures(HeartbeatTask::every, (&task,), sleep),
        call_ensures(HeartbeatTask::on_wake, (task, &found), woken),
        woken matches Some(round) ==> call_ensures(HeartbeatRound::ttl, (&round,), length)
            && call_ensures(HeartbeatRound::on_heartbeat, (round, guard, &outcome), next),
        woken is Some && next is Some ==> call_ensures(
            HeartbeatTask::every,
            (&next->0,),
            sleep_again,
        ),
    ensures
        sleep@ == every@,
        woken is None <==> found@.released,
        woken is Some ==> {
            let before = old(guard)@;
            let after = final(guard)@;
            &&& length@ == ttl@
            &&& next is None <==> outcome is Err && outcome->Err_0 is LeaseLost
            &&& next is Some ==> sleep_again@ == every@ && next->0@.ttl == ttl@
            &&& same_acquisition(before, after)
            &&& after.version == before.version
            &&& after.expires_at == before.expires_at
            &&& after.epoch == before.epoch
            &&& after.doubtful == before.doubtful
            &&& after.released <==> before.released || next is None
        },
{
}

/// A task that is going on keeps the period and the length it has.
pub proof fn law_task_keeps_its_own(
    task: HeartbeatTask,
    sleep: Duration,
    found: LeaseGuard,
    woken: Option<HeartbeatRound>,
    length: Duration,
    guard: &mut LeaseGuard,
    outcome: Result<(), CoordError>,
    next: Option<HeartbeatTask>,
)
    requires
        call_ensures(HeartbeatTask::every, (&task,), sleep),
        call_ensures(HeartbeatTask::on_wake, (task, &found), woken),
        woken matches Some(round) ==> call_ensures(HeartbeatRound::ttl, (&round,), length)
            && call_ensures(HeartbeatRound::on_heartbeat, (round, guard, &outcome), next),
    ensures
        sleep@ == task@.every,
        woken is None <==> found@.released,
        woken is Some ==> {
            &&& length@ == task@.ttl
            &&& next is None <==> outcome is Err && outcome->Err_0 is LeaseLost
            &&& next matches Some(again) ==> again@.every == task@.every && again@.ttl == task@.ttl
            &&& next is Some ==> final(guard)@ == old(guard)@
        },
{
}

} // verus!
