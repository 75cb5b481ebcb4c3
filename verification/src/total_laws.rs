//! That the library takes every input it is meant for: the calls below can be
//! made in every state and on every value, as long as the functions that the
//! caller hands over take what they are given.

use vstd::prelude::*;

use crate::acquire::{try_acquire, Acquire, TryAcquire};
use crate::cas::{cas_update, CasUpdate};
use crate::error::CoordError;
use crate::guard::{
    Heartbeat, HeartbeatRound, HeartbeatTask, LeaseGuard, LeaseRelease, ReleaseReread, Renewal,
};
use crate::instance::{instance_id, InstanceEnv, InstanceId};
use crate::lease::Lease;
use crate::store::{ObjectMeta, StoreError, Version};
use crate::text::append_decimal;
use crate::time::{Duration, Instant, SystemTime};

verus! {

/// Times can be made, taken apart and compared, whatever they are.
pub proof fn law_any_time_will_do(
    length: Duration,
    other: Duration,
    reading: SystemTime,
    earlier: SystemTime,
    instant: Instant,
    before: Instant,
    n: u64,
    secs: i64,
    nanos: u32,
)
    ensures
        call_requires(Duration::from_secs, (n,)),
        call_requires(Duration::from_millis, (n,)),
        call_requires(Duration::from_parts, (n, nanos)),
        call_requires(Duration::as_secs, (&length,)),
        call_requires(Duration::subsec_nanos, (&length,)),
        call_requires(Duration::third, (&length,)),
        call_requires(Duration::min, (length, other)),
        call_requires(SystemTime::unix_epoch, ()),
        call_requires(SystemTime::from_parts, (secs, nanos)),
        call_requires(SystemTime::secs, (&reading,)),
        call_requires(SystemTime::subsec_nanos, (&reading,)),
        call_requires(SystemTime::checked_add, (&reading, length)),
        call_requires(SystemTime::is_after, (&reading, earlier)),
        call_requires(Instant::after_origin, (length,)),
        call_requires(Instant::checked_add, (&instant, length)),
        call_requires(Instant::is_after, (&instant, before)),
        call_requires(Instant::saturating_duration_since, (&instant, before)),
{
}

/// Plain values can be made, copied, compared and put in words, whatever they
/// are.
pub proof fn law_any_value_will_do(
    token: &str,
    version: Version,
    error: CoordError,
    text: &mut String,
    n: u32,
    epoch: u64,
    lease: Lease,
    other: Lease,
    reply: Result<ObjectMeta, StoreError>,
)
    ensures
        call_requires(Version::new, (token,)),
        call_requires(Version::as_str, (&version,)),
        call_requires(Version::clone, (&version,)),
        call_requires(CoordError::message, (&error, token)),
        call_requires(append_decimal, (text, n)),
        call_requires(crate::lease::lease_skew_tolerance, ()),
        call_requires(crate::lease::released_lease, (token, epoch)),
        call_requires(crate::lease::release_outcome, (reply,)),
        call_requires(Lease::is_same, (&lease, &other)),
        call_requires(Lease::clone, (&lease,)),
{
}

/// An update can be started on any key with any budget, asked for its state, and
/// handed any answer to its read.
pub proof fn law_any_read_can_be_handed_to_an_update<T, D, F, E>(
    key: &str,
    max_retries: u32,
    update: CasUpdate,
    reply: Result<Option<(ObjectMeta, Vec<u8>)>, StoreError>,
    decode: D,
    modify: F,
    encode: E,
) where
    D: FnOnce(Vec<u8>) -> Result<T, prost::DecodeError>,
    F: FnOnce(Option<&T>) -> Result<Option<T>, CoordError>,
    E: FnOnce(&T) -> Vec<u8>,

    requires
        forall|body: Vec<u8>| decode.requires((body,)),
        forall|message: Option<&T>| modify.requires((message,)),
        forall|message: &T| encode.requires((message,)),
    ensures
        call_requires(cas_update, (key, max_retries)),
        call_requires(CasUpdate::key, (&update,)),
        call_requires(CasUpdate::attempts, (&update,)),
        call_requires(CasUpdate::on_read::<T, D, F, E>, (update, reply, decode, modify, encode)),
{
}

/// A guard can be asked for what it tells, handed any answer to any heartbeat,
/// renewed, and given up, in every state.
pub proof fn law_any_call_can_be_made_on_a_guard<E: FnOnce(&Lease) -> Vec<u8>>(
    guard: LeaseGuard,
    held: &mut LeaseGuard,
    heartbeat: Heartbeat,
    reply: Result<ObjectMeta, StoreError>,
    encode: E,
    every: Duration,
    ttl: Duration,
    renewal: Renewal,
    outcome: Result<(), CoordError>,
    task: HeartbeatTask,
    round: HeartbeatRound,
)
    requires
        forall|lease: &Lease| encode.requires((lease,)),
    ensures
        call_requires(LeaseGuard::key, (&guard,)),
        call_requires(LeaseGuard::holder, (&guard,)),
        call_requires(LeaseGuard::expires_at, (&guard,)),
        call_requires(LeaseGuard::fencing_token, (&guard,)),
        call_requires(LeaseGuard::epoch, (&guard,)),
        call_requires(LeaseGuard::on_heartbeat, (held, heartbeat, reply)),
        call_requires(LeaseGuard::release::<E>, (held, encode)),
        call_requires(LeaseGuard::release_on_drop::<E>, (held, encode)),
        call_requires(LeaseGuard::renew_if_needed, (&guard, ttl)),
        call_requires(Renewal::ttl, (&renewal,)),
        call_requires(Renewal::margin, (&renewal,)),
        call_requires(Renewal::on_heartbeat, (renewal, outcome)),
        call_requires(LeaseGuard::spawn_heartbeat, (every, ttl)),
        call_requires(HeartbeatTask::every, (&task,)),
        call_requires(HeartbeatTask::on_wake, (task, &guard)),
        call_requires(HeartbeatRound::ttl, (&round,)),
        call_requires(HeartbeatRound::on_heartbeat, (round, held, &outcome)),
{
}

/// A release can be handed any answer to its write and to its read, at any time.
pub proof fn law_any_answer_can_be_handed_to_a_release<D, E>(
    key: &str,
    purpose: &str,
    version: Version,
    epoch: u64,
    encode: E,
    release: LeaseRelease,
    reply: Result<ObjectMeta, StoreError>,
    again: ReleaseReread,
    current: Result<Option<(ObjectMeta, Lease)>, CoordError>,
    read: Result<Option<(ObjectMeta, Vec<u8>)>, StoreError>,
    decode: D,
    now: SystemTime,
) where D: FnOnce(Vec<u8>) -> Result<Lease, prost::DecodeError>, E: FnOnce(&Lease) -> Vec<u8>
    requires
        forall|lease: &Lease| encode.requires((lease,)),
        forall|body: Vec<u8>| decode.requires((body,)),
    ensures
        call_requires(
            crate::lease::release_lease::<E>,
            (key, purpose, version, epoch, encode),
        ),
        call_requires(LeaseRelease::on_put, (release, reply)),
        call_requires(ReleaseReread::key, (&again,)),
        call_requires(ReleaseReread::on_current, (again, current, now)),
        call_requires(ReleaseReread::on_read::<D>, (again, read, decode, now)),
{
}

/// A lease can be tried for by anyone at any time, and the try handed any answer
/// to its read; a wait can be asked for its next try and its state.
pub proof fn law_anyone_can_try<D, E>(
    key: &str,
    holder: &str,
    purpose: &str,
    ttl: Duration,
    now: SystemTime,
    attempt: TryAcquire,
    reply: Result<Option<(ObjectMeta, Vec<u8>)>, StoreError>,
    decode: D,
    encode: E,
    wait: Acquire,
) where D: FnOnce(Vec<u8>) -> Result<Lease, prost::DecodeError>, E: FnOnce(&Lease) -> Vec<u8>
    requires
        forall|body: Vec<u8>| decode.requires((body,)),
        forall|lease: &Lease| encode.requires((lease,)),
    ensures
        call_requires(try_acquire, (key, holder, purpose, ttl, now)),
        call_requires(TryAcquire::key, (&attempt,)),
        call_requires(TryAcquire::on_read::<D, E>, (attempt, reply, decode, encode)),
        call_requires(Acquire::key, (&wait,)),
        call_requires(Acquire::attempts, (&wait,)),
        call_requires(Acquire::attempt, (&wait, now)),
{
}

/// Every process has an identity, whatever its environment says.
pub proof fn law_every_process_has_an_identity(cell: &mut InstanceId, env: InstanceEnv)
    ensures
        call_requires(InstanceEnv::identity, (&env,)),
        call_requires(InstanceId::unknown, ()),
        call_requires(instance_id, (cell, &env)),
{
}

} // verus!
