//! Whole operations against an in-memory store and a simulated clock.

use std::collections::HashMap;

use prost::Message;
use walgit_coord::acquire::{
    acquire, try_acquire, AcquirePlan, AcquireStep, LeaseClaim, TryAcquire,
};
use walgit_coord::cas::{cas_update, BackoffRequest, CasOutcome, CasPlan, CasUpdate, CasWrite};
use walgit_coord::error::CoordError;
use walgit_coord::guard::{
    LeaseGuard, LeaseRelease, ReleaseAnswer, ReleaseStep, RenewalCheck, RenewalProgress,
};
use walgit_coord::instance::{instance_id, InstanceEnv, InstanceId};
use walgit_coord::lease::{Lease, LEASE_SKEW_TOLERANCE_SECS};
use walgit_coord::message::{get_message, get_message_if_changed};
use walgit_coord::store::{ObjectMeta, PutMode, PutRequest, StoreError, Version};
use walgit_coord::time::{Duration, Instant, SystemTime};

// ---------------------------------------------------------------------------
// The store
// ---------------------------------------------------------------------------

type Read = Result<Option<(ObjectMeta, Vec<u8>)>, StoreError>;

struct MemoryStore {
    objects: HashMap<String, (u64, Vec<u8>)>,
    last_version: u64,
}

fn meta(version: u64) -> ObjectMeta {
    ObjectMeta { version: Version::new(&format!("v{version}")) }
}

impl MemoryStore {
    fn new() -> MemoryStore {
        MemoryStore { objects: HashMap::new(), last_version: 0 }
    }

    fn get_bytes(&self, key: &str) -> Read {
        Ok(self.objects.get(key).map(|(version, body)| (meta(*version), body.clone())))
    }

    fn get_if_changed(&self, key: &str, known: &Version) -> Read {
        match self.objects.get(key) {
            None => Err(StoreError::NotFound { key: key.to_string() }),
            Some((version, _)) if meta(*version).version == *known => Ok(None),
            Some((version, body)) => Ok(Some((meta(*version), body.clone()))),
        }
    }

    fn put(&mut self, request: PutRequest) -> Result<ObjectMeta, StoreError> {
        let current = self.objects.get(&request.key).map(|(version, _)| *version);
        let admitted = match (&request.mode, current) {
            (PutMode::Create, None) => true,
            (PutMode::Update(want), Some(version)) => meta(version).version == *want,
            _ => false,
        };
        if !admitted {
            return Err(StoreError::PreconditionFailed {
                key: request.key,
                current: current.map(|version| meta(version).version),
            });
        }
        self.last_version += 1;
        self.objects.insert(request.key, (self.last_version, request.body));
        Ok(meta(self.last_version))
    }
}

// ---------------------------------------------------------------------------
// Messages
// ---------------------------------------------------------------------------

type Catalog = Vec<String>;

fn encode_catalog(catalog: &Catalog) -> Vec<u8> {
    catalog.join("\n").encode_to_vec()
}

fn decode_catalog(body: Vec<u8>) -> Result<Catalog, prost::DecodeError> {
    let text = String::decode(body.as_slice())?;
    Ok(text.lines().map(|line| line.to_string()).collect())
}

fn time_text(time: &Option<SystemTime>) -> String {
    match time {
        None => "-".to_string(),
        Some(time) => format!("{}.{}", time.secs(), time.subsec_nanos()),
    }
}

fn time_from_text(text: &str) -> Option<SystemTime> {
    let (secs, nanos) = text.split_once('.')?;
    SystemTime::from_parts(secs.parse().unwrap(), nanos.parse().unwrap())
}

fn encode_lease(lease: &Lease) -> Vec<u8> {
    format!(
        "{}\n{}\n{}\n{}\n{}",
        lease.holder,
        lease.purpose,
        time_text(&lease.acquired_at),
        time_text(&lease.expires_at),
        lease.epoch
    )
    .encode_to_vec()
}

fn decode_lease(body: Vec<u8>) -> Result<Lease, prost::DecodeError> {
    let text = String::decode(body.as_slice())?;
    let fields: Vec<&str> = text.split('\n').collect();
    Ok(Lease {
        holder: fields[0].to_string(),
        purpose: fields[1].to_string(),
        acquired_at: time_from_text(fields[2]),
        expires_at: time_from_text(fields[3]),
        epoch: fields[4].parse().unwrap(),
    })
}

// ---------------------------------------------------------------------------
// The clock and the drivers
// ---------------------------------------------------------------------------

/// Milliseconds since some day in 2023.
#[derive(Clone, Copy)]
struct Clock(u64);

impl Clock {
    fn wall(self) -> SystemTime {
        SystemTime::from_parts(1_700_000_000, 0)
            .unwrap()
            .checked_add(Duration::from_millis(self.0))
            .unwrap()
    }

    fn steady(self) -> Instant {
        Instant::after_origin(Duration::from_millis(self.0))
    }
}

const SKEW_MILLIS: u64 = LEASE_SKEW_TOLERANCE_SECS * 1000;

fn secs(n: u64) -> Duration {
    Duration::from_secs(n)
}

fn millis(n: u64) -> Duration {
    Duration::from_millis(n)
}

fn whole_millis(length: Duration) -> u64 {
    length.as_secs() * 1000 + u64::from(length.subsec_nanos().div_ceil(1_000_000))
}

fn draw(pause: &BackoffRequest) -> Duration {
    let base = whole_millis(pause.base);
    millis((base << pause.attempt.min(10)).min(whole_millis(pause.cap)))
}

fn try_now(
    store: &mut MemoryStore,
    key: &str,
    holder: &str,
    purpose: &str,
    ttl: Duration,
    clock: Clock,
) -> Result<Option<LeaseGuard>, CoordError> {
    let attempt = try_acquire(key, holder, purpose, ttl, clock.wall());
    let reply = store.get_bytes(attempt.key());
    match attempt.on_read(reply, decode_lease, encode_lease).unwrap() {
        AcquirePlan::Finished(outcome) => outcome,
        AcquirePlan::Claim(claim, request) => claim.on_put(store.put(request)),
    }
}

fn heartbeat(
    store: &mut MemoryStore,
    guard: &mut LeaseGuard,
    ttl: Duration,
    clock: Clock,
) -> Result<(), CoordError> {
    let (sent, request) = guard.heartbeat(clock.wall(), ttl, encode_lease);
    guard.on_heartbeat(sent, store.put(request))
}

/// Give a lease up, where nothing is in doubt.
fn release(store: &mut MemoryStore, guard: &mut LeaseGuard) -> Result<(), CoordError> {
    let (release, request) = guard.release(encode_lease);
    match release.on_put(store.put(request)) {
        ReleaseStep::Finished(outcome) => outcome,
        ReleaseStep::Reread(_) => panic!("a heartbeat is in doubt"),
    }
}

fn finish_release(
    store: &MemoryStore,
    release: LeaseRelease,
    reply: Result<ObjectMeta, StoreError>,
    clock: Clock,
) -> Result<(), CoordError> {
    let again = match release.on_put(reply) {
        ReleaseStep::Finished(outcome) => return outcome,
        ReleaseStep::Reread(again) => again,
    };
    let reply = store.get_bytes(again.key());
    match again.on_read(reply, decode_lease, clock.wall()) {
        ReleaseAnswer::Finished(outcome) => outcome,
        ReleaseAnswer::Unread(_, error) => panic!("not read: {error:?}"),
    }
}

/// Give a lease up that may be in doubt.
fn release_at(
    store: &mut MemoryStore,
    guard: &mut LeaseGuard,
    clock: Clock,
) -> Result<(), CoordError> {
    let (release, request) = guard.release(encode_lease);
    let reply = store.put(request);
    finish_release(store, release, reply, clock)
}

/// How the store refuses a write under `key` while the version `current` is
/// there.
fn refused(key: &str, current: u64) -> CoordError {
    CoordError::Store(StoreError::PreconditionFailed {
        key: key.to_string(),
        current: Some(meta(current).version),
    })
}

fn record(store: &MemoryStore, key: &str) -> Lease {
    get_message(store.get_bytes(key), decode_lease).unwrap().unwrap().1
}

fn cas_now<F>(
    store: &mut MemoryStore,
    key: &str,
    max_retries: u32,
    mut modify: F,
) -> Result<Option<(ObjectMeta, Catalog)>, CoordError>
where
    F: FnMut(Option<&Catalog>) -> Result<Option<Catalog>, CoordError>,
{
    let mut update = cas_update(key, max_retries);
    loop {
        let reply = store.get_bytes(update.key());
        let plan = update.on_read(reply, decode_catalog, &mut modify, encode_catalog);
        let (write, request) = match plan {
            CasPlan::Finished(outcome) => return outcome,
            CasPlan::Write(write, request) => (write, request),
        };
        update = match write.on_put(store.put(request)) {
            CasOutcome::Finished(outcome) => return outcome,
            CasOutcome::Reread(next) => next,
            CasOutcome::Backoff(next, _) => next,
        };
    }
}

/// One of many updates that run at once.
enum Incrementer {
    Reading(CasUpdate),
    Writing(CasWrite<Catalog>, PutRequest),
    Done,
}

/// Run `n` updates at once: in every round each one that is still running first
/// reads, then all of them write, so that all but one collide.
fn run_incrementers(store: &mut MemoryStore, key: &str, n: u32, retries: u32, tag: &str) {
    let mut all: Vec<Incrementer> =
        (0..n).map(|_| Incrementer::Reading(cas_update(key, retries))).collect();
    let mut running = n;
    while running > 0 {
        for (i, slot) in all.iter_mut().enumerate() {
            *slot = match std::mem::replace(slot, Incrementer::Done) {
                Incrementer::Reading(update) => {
                    let own = format!("{tag}-{i}");
                    let plan = update.on_read(
                        store.get_bytes(key),
                        decode_catalog,
                        |current: Option<&Catalog>| {
                            let mut catalog = current.cloned().unwrap_or_default();
                            catalog.push(own);
                            Ok(Some(catalog))
                        },
                        encode_catalog,
                    );
                    match plan {
                        CasPlan::Write(write, request) => Incrementer::Writing(write, request),
                        CasPlan::Finished(outcome) => panic!("ended early: {outcome:?}"),
                    }
                }
                other => other,
            };
        }
        for slot in all.iter_mut() {
            *slot = match std::mem::replace(slot, Incrementer::Done) {
                Incrementer::Writing(write, request) => {
                    match write.on_put(store.put(request)) {
                        CasOutcome::Finished(outcome) => {
                            assert!(outcome.unwrap().is_some());
                            running -= 1;
                            Incrementer::Done
                        }
                        CasOutcome::Reread(next) => Incrementer::Reading(next),
                        CasOutcome::Backoff(next, _) => Incrementer::Reading(next),
                    }
                }
                other => other,
            };
        }
    }
}

/// What happens next to one of many operations over a slow store.
enum Delayed<T> {
    ReadArrives,
    ReadAnswered(Read),
    PutArrives(T, PutRequest),
    PutAnswered(T, Result<ObjectMeta, StoreError>),
}

/// When a request of the operation `i` that is made at `now` arrives: 2 to 10 ms
/// later. Its answer takes another 8 ms.
fn arrival(now: u64, i: usize) -> u64 {
    now + 2 + (now * 7 + i as u64 * 5) % 9
}

/// Take what happens next.
fn next<T>(queue: &mut Vec<(u64, usize, Delayed<T>)>) -> Option<(u64, usize, Delayed<T>)> {
    let at = (0..queue.len()).min_by_key(|at| (queue[*at].0, queue[*at].1))?;
    Some(queue.remove(at))
}

/// Run `n` updates at once over a store whose requests and answers take their
/// time.
fn run_delayed_incrementers(store: &mut MemoryStore, key: &str, n: u32, tag: &str) {
    let mut updates: Vec<Option<CasUpdate>> = (0..n).map(|_| Some(cas_update(key, 500))).collect();
    let mut queue: Vec<(u64, usize, Delayed<CasWrite<Catalog>>)> =
        (0..n as usize).map(|i| (arrival(0, i), i, Delayed::ReadArrives)).collect();
    let mut collisions = 0;
    while let Some((now, i, event)) = next(&mut queue) {
        match event {
            Delayed::ReadArrives => {
                queue.push((now + 8, i, Delayed::ReadAnswered(store.get_bytes(key))));
            }
            Delayed::ReadAnswered(reply) => {
                let own = format!("{tag}-{i}");
                let plan = updates[i].take().unwrap().on_read(
                    reply,
                    decode_catalog,
                    |current: Option<&Catalog>| {
                        let mut catalog = current.cloned().unwrap_or_default();
                        catalog.push(own);
                        Ok(Some(catalog))
                    },
                    encode_catalog,
                );
                match plan {
                    CasPlan::Write(write, request) => {
                        queue.push((arrival(now, i), i, Delayed::PutArrives(write, request)));
                    }
                    CasPlan::Finished(outcome) => panic!("ended early: {outcome:?}"),
                }
            }
            Delayed::PutArrives(write, request) => {
                queue.push((now + 8, i, Delayed::PutAnswered(write, store.put(request))));
            }
            Delayed::PutAnswered(write, reply) => match write.on_put(reply) {
                CasOutcome::Finished(outcome) => assert!(outcome.unwrap().is_some()),
                CasOutcome::Reread(update) => {
                    collisions += 1;
                    updates[i] = Some(update);
                    queue.push((arrival(now, i), i, Delayed::ReadArrives));
                }
                CasOutcome::Backoff(_, _) => panic!("the store did not fail"),
            },
        }
    }
    assert!(collisions > 0);
}

/// Run `n` tries at one lease at once over a store whose requests and answers
/// take their time.
fn run_delayed_contenders(store: &mut MemoryStore, key: &str, n: u32, purpose: &str) -> u32 {
    let mut tries: Vec<Option<TryAcquire>> = (0..n)
        .map(|i| Some(try_acquire(key, &format!("h{i}"), purpose, secs(60), Clock(0).wall())))
        .collect();
    let mut queue: Vec<(u64, usize, Delayed<LeaseClaim>)> =
        (0..n as usize).map(|i| (arrival(0, i), i, Delayed::ReadArrives)).collect();
    let mut acquired = 0;
    while let Some((now, i, event)) = next(&mut queue) {
        match event {
            Delayed::ReadArrives => {
                queue.push((now + 8, i, Delayed::ReadAnswered(store.get_bytes(key))));
            }
            Delayed::ReadAnswered(reply) => {
                let attempt = tries[i].take().unwrap();
                match attempt.on_read(reply, decode_lease, encode_lease).unwrap() {
                    AcquirePlan::Claim(claim, request) => {
                        queue.push((arrival(now, i), i, Delayed::PutArrives(claim, request)));
                    }
                    AcquirePlan::Finished(outcome) => assert_eq!(outcome, Ok(None)),
                }
            }
            Delayed::PutArrives(claim, request) => {
                queue.push((now + 8, i, Delayed::PutAnswered(claim, store.put(request))));
            }
            Delayed::PutAnswered(claim, reply) => {
                if claim.on_put(reply).unwrap().is_some() {
                    acquired += 1;
                }
            }
        }
    }
    acquired
}

/// Run `n` tries at one lease at once: all of them read before any of them
/// claims.
fn run_contenders(store: &mut MemoryStore, key: &str, n: u32, purpose: &str) -> u32 {
    let mut claims: Vec<(LeaseClaim, PutRequest)> = Vec::new();
    for i in 0..n {
        let attempt =
            try_acquire(key, &format!("h{i}"), purpose, secs(60), Clock(u64::from(i)).wall());
        match attempt.on_read(store.get_bytes(key), decode_lease, encode_lease).unwrap() {
            AcquirePlan::Claim(claim, request) => claims.push((claim, request)),
            AcquirePlan::Finished(outcome) => panic!("ended early: {outcome:?}"),
        }
    }
    let mut acquired = 0;
    for (claim, request) in claims {
        if claim.on_put(store.put(request)).unwrap().is_some() {
            acquired += 1;
        }
    }
    acquired
}

// ---------------------------------------------------------------------------
// Updates
// ---------------------------------------------------------------------------

#[test]
fn cas_update_convergence_64_incrementers() {
    let mut store = MemoryStore::new();
    let key = "counter.pb";
    run_incrementers(&mut store, key, 64, 500, "repo");
    let (_, catalog) = get_message(store.get_bytes(key), decode_catalog).unwrap().unwrap();
    assert_eq!(catalog.len(), 64);
    let mut distinct = catalog.clone();
    distinct.sort();
    distinct.dedup();
    assert_eq!(distinct.len(), 64);
}

#[test]
fn cas_and_lease_exclusivity_survive_delayed_responses() {
    let mut store = MemoryStore::new();
    run_delayed_incrementers(&mut store, "delayed-counter.pb", 32, "delayed");
    let (_, catalog) =
        get_message(store.get_bytes("delayed-counter.pb"), decode_catalog).unwrap().unwrap();
    assert_eq!(catalog.len(), 32);

    let acquired = run_delayed_contenders(&mut store, "leases/delayed.pb", 32, "delayed");
    assert_eq!(acquired, 1);
}

#[test]
fn contending_updates_need_a_retry_for_each_other_and_no_more() {
    let mut store = MemoryStore::new();
    // In every round all but one collide, so the last is written at its 16th try.
    run_incrementers(&mut store, "contended.pb", 16, 15, "tag");
    let (_, mut catalog) =
        get_message(store.get_bytes("contended.pb"), decode_catalog).unwrap().unwrap();
    catalog.sort();
    let mut tags: Vec<String> = (0..16).map(|i| format!("tag-{i}")).collect();
    tags.sort();
    assert_eq!(catalog, tags);
}

#[test]
fn an_update_is_read_back() {
    let mut store = MemoryStore::new();
    let (meta, new) = cas_now(&mut store, "back.pb", 3, |_| Ok(Some(vec!["a".to_string()])))
        .unwrap()
        .unwrap();
    let read = get_message(store.get_bytes("back.pb"), decode_catalog).unwrap().unwrap();
    assert_eq!(read, (meta, new));
}

#[test]
fn cas_update_abort_returns_none() {
    let mut store = MemoryStore::new();
    let key = "abort.pb";
    let res = cas_now(&mut store, key, 10, |_| Ok(None)).unwrap();
    assert!(res.is_none());
    // object was never created
    assert!(store.get_bytes(key).unwrap().is_none());
}

#[test]
fn get_message_if_changed_works() {
    let mut store = MemoryStore::new();
    let key = "catalog.pb";

    // Absent => None.
    let res = get_message_if_changed(store.get_if_changed(key, &Version::new("0")), decode_catalog)
        .unwrap();
    assert!(res.is_none());

    // Create.
    let (created, _) = cas_now(&mut store, key, 10, |current| {
        assert!(current.is_none());
        Ok(Some(vec!["a".to_string()]))
    })
    .unwrap()
    .unwrap();

    // Same version => None (unchanged).
    let res = get_message_if_changed(store.get_if_changed(key, &created.version), decode_catalog)
        .unwrap();
    assert!(res.is_none());

    // Different version => Some.
    let res = get_message_if_changed(store.get_if_changed(key, &Version::new("0")), decode_catalog)
        .unwrap()
        .unwrap();
    assert_eq!(res.1, vec!["a".to_string()]);
}

// ---------------------------------------------------------------------------
// Leases
// ---------------------------------------------------------------------------

#[test]
fn lease_exclusivity_32_concurrent() {
    let mut store = MemoryStore::new();
    let successes = run_contenders(&mut store, "leases/excl.pb", 32, "test");
    assert_eq!(successes, 1);
}

#[test]
fn lease_steal_after_expiry() {
    let mut store = MemoryStore::new();
    let key = "leases/steal.pb";
    let mut g1 =
        try_now(&mut store, key, "h1", "test", millis(50), Clock(0)).unwrap().unwrap();

    // Not before expiry and skew tolerance are both over.
    let early = Clock(50 + SKEW_MILLIS - 1);
    assert!(try_now(&mut store, key, "h2", "test", secs(30), early).unwrap().is_none());

    // Wait past expiry + skew tolerance.
    let later = Clock(SKEW_MILLIS + 100);
    let g2 = try_now(&mut store, key, "h2", "test", secs(30), later).unwrap().unwrap();
    assert_eq!(g2.holder(), "h2");
    assert_eq!(g2.fencing_token(), g1.fencing_token() + 1);

    // h1's CAS should now fail.
    let res = heartbeat(&mut store, &mut g1, secs(30), later);
    assert!(matches!(res, Err(CoordError::LeaseLost)));
}

#[test]
fn lease_heartbeat_keeps_it() {
    let mut store = MemoryStore::new();
    let key = "leases/hb.pb";
    let ttl = millis(100);
    let mut guard = try_now(&mut store, key, "h1", "test", ttl, Clock(0)).unwrap().unwrap();
    let mut task = LeaseGuard::spawn_heartbeat(millis(20), ttl);

    // Run well past the first ttl.
    let mut now: u64 = 0;
    while now < 400 {
        now += whole_millis(task.every());
        let round = task.on_wake(&guard).unwrap();
        let outcome = heartbeat(&mut store, &mut guard, round.ttl(), Clock(now));
        task = round.on_heartbeat(&mut guard, &outcome).unwrap();
    }

    // Lease should still be held.
    let res = try_now(&mut store, key, "h2", "test", secs(30), Clock(400)).unwrap();
    assert!(res.is_none());
    // Long past the first expiry and the tolerance, too.
    let res = try_now(&mut store, key, "h2", "test", secs(30), Clock(SKEW_MILLIS + 400)).unwrap();
    assert!(res.is_none());

    // Release, which stops the heartbeat.
    release(&mut store, &mut guard).unwrap();
    assert_eq!(task.on_wake(&guard), None);
}

#[test]
fn fencing_token_is_stable_across_heartbeats() {
    let mut store = MemoryStore::new();
    let key = "leases/fence-token.pb";
    let mut guard = try_now(&mut store, key, "h1", "test", secs(30), Clock(0)).unwrap().unwrap();
    let token = guard.fencing_token();
    heartbeat(&mut store, &mut guard, secs(30), Clock(1)).unwrap();
    assert_eq!(guard.fencing_token(), token);
    assert_eq!(guard.epoch(), token + 1);
    release(&mut store, &mut guard).unwrap();
}

#[test]
fn lease_release_frees_it() {
    let mut store = MemoryStore::new();
    let key = "leases/rel.pb";
    let mut g = try_now(&mut store, key, "h1", "test", secs(30), Clock(0)).unwrap().unwrap();
    release(&mut store, &mut g).unwrap();

    let g2 = try_now(&mut store, key, "h2", "test", secs(30), Clock(0)).unwrap().unwrap();
    assert_eq!(g2.holder(), "h2");
    assert_eq!(g2.fencing_token(), g.epoch() + 1);
}

#[test]
fn stale_owner_release_cannot_delete_reclaimed_lease() {
    let key = "leases/stale-release.pb";
    let later = Clock(SKEW_MILLIS + 50);

    // The release lands first and makes the key immediately reusable.
    let mut store = MemoryStore::new();
    let mut g1 = try_now(&mut store, key, "h1", "test", millis(20), Clock(0)).unwrap().unwrap();
    release(&mut store, &mut g1).unwrap();
    let mut g2 = try_now(&mut store, key, "h2", "test", secs(30), later).unwrap().unwrap();
    heartbeat(&mut store, &mut g2, secs(30), later).unwrap();

    // The successor steals the expired lease while the release is on its way.
    let mut store = MemoryStore::new();
    let mut g1 = try_now(&mut store, key, "h1", "test", millis(20), Clock(0)).unwrap().unwrap();
    let (under_way, on_its_way) = g1.release(encode_lease);
    let mut g2 = try_now(&mut store, key, "h2", "test", secs(30), later).unwrap().unwrap();
    let reply = store.put(on_its_way);
    finish_release(&store, under_way, reply, later).unwrap();
    heartbeat(&mut store, &mut g2, secs(30), later).unwrap();
    assert_eq!(record(&store, key).holder, "h2");
}

#[test]
fn lease_lost_after_external_steal() {
    let mut store = MemoryStore::new();
    let key = "leases/lost.pb";
    let mut g1 = try_now(&mut store, key, "h1", "test", millis(50), Clock(0)).unwrap().unwrap();
    // Wait for expiry + skew, then steal from outside.
    let later = Clock(SKEW_MILLIS + 100);
    let _g2 = try_now(&mut store, key, "h2", "test", secs(30), later).unwrap().unwrap();

    let res = heartbeat(&mut store, &mut g1, secs(30), later);
    assert!(matches!(res, Err(CoordError::LeaseLost)));
}

#[test]
fn delayed_lease_heartbeat_response_is_not_reported_live() {
    let mut store = MemoryStore::new();
    let key = "leases/delayed-heartbeat.pb";
    let ttl = millis(5);
    let mut guard = try_now(&mut store, key, "h1", "delayed", ttl, Clock(0)).unwrap().unwrap();

    let mut now: u64 = 10;
    let mut renewal = guard.renew_if_needed(millis(5));
    let mut heartbeats = 0;
    let live = loop {
        renewal = match renewal.check(&guard, Clock(now).wall()) {
            RenewalCheck::Finished(live) => break live,
            RenewalCheck::Heartbeat(next) => next,
        };
        heartbeats += 1;
        let (sent, request) = guard.heartbeat(Clock(now).wall(), renewal.ttl(), encode_lease);
        let reply = store.put(request);
        // The answer takes its time.
        now += 30;
        let outcome = guard.on_heartbeat(sent, reply);
        renewal = match renewal.on_heartbeat(outcome) {
            RenewalProgress::Check(next) => next,
            RenewalProgress::Finished(outcome) => break outcome.unwrap(),
        };
    };
    assert!(!live, "a late heartbeat response must not claim a usable lease window");
    assert_eq!(heartbeats, 2);
}

#[test]
fn lost_heartbeat_answer_still_keeps_others_out() {
    let mut store = MemoryStore::new();
    let key = "leases/lost-answer.pb";
    let mut g1 = try_now(&mut store, key, "h1", "test", secs(10), Clock(0)).unwrap().unwrap();

    // The heartbeat is written, and its answer lost: the holder keeps believing
    // in the old expiry.
    let (sent, request) = g1.heartbeat(Clock(5000).wall(), secs(10), encode_lease);
    store.put(request).unwrap();
    let outcome = g1.on_heartbeat(sent, timed_out());
    assert!(matches!(outcome, Err(CoordError::Store(StoreError::Retryable(_)))));
    assert_eq!(g1.expires_at(), Clock(10_000).wall());

    // Contenders go by the new one.
    let last_moment = Clock(15_000 + SKEW_MILLIS - 1);
    assert!(try_now(&mut store, key, "h2", "test", secs(10), last_moment).unwrap().is_none());
    // The holder cannot renew any more, and learns so.
    let outcome = heartbeat(&mut store, &mut g1, secs(10), Clock(6000));
    assert_eq!(outcome, Err(CoordError::LeaseLost));
    let freed = Clock(15_000 + SKEW_MILLIS);
    let g2 = try_now(&mut store, key, "h2", "test", secs(10), freed).unwrap().unwrap();
    assert!(g2.fencing_token() > g1.fencing_token());
}

fn timed_out() -> Result<ObjectMeta, StoreError> {
    Err(StoreError::Retryable("timed out".to_string()))
}

#[test]
fn release_is_not_confirmed_while_a_heartbeat_in_doubt_holds_the_lease() {
    let mut store = MemoryStore::new();
    let key = "leases/doubt.pb";
    let mut guard = try_now(&mut store, key, "h1", "test", secs(10), Clock(0)).unwrap().unwrap();

    // One heartbeat never reaches the store, the next is written and its answer
    // lost, and a third collides with it.
    let (sent, _) = guard.heartbeat(Clock(1000).wall(), secs(10), encode_lease);
    guard.on_heartbeat(sent, timed_out()).unwrap_err();
    let (sent, request) = guard.heartbeat(Clock(2000).wall(), secs(60), encode_lease);
    store.put(request).unwrap();
    guard.on_heartbeat(sent, timed_out()).unwrap_err();
    let outcome = heartbeat(&mut store, &mut guard, secs(60), Clock(3000));
    assert_eq!(outcome, Err(CoordError::LeaseLost));

    // The lease is held in our name still, and the release says so.
    let outcome = release_at(&mut store, &mut guard, Clock(4000));
    assert_eq!(outcome, Err(refused(key, 2)));
    assert_eq!(record(&store, key).holder, "h1");
    let last_moment = Clock(61_999);
    assert_eq!(release_at(&mut store, &mut guard, last_moment), Err(refused(key, 2)));
    // Once it has run out no one holds it.
    assert_eq!(release_at(&mut store, &mut guard, Clock(62_000)), Ok(()));
    assert_eq!(record(&store, key).epoch, 2);
}

#[test]
fn release_in_doubt_leaves_a_successor_alone() {
    let key = "leases/doubt-stolen.pb";
    // Of another name, and of the same name at another time.
    for successor in ["h2", "h1"] {
        let mut store = MemoryStore::new();
        let mut g1 = try_now(&mut store, key, "h1", "test", secs(1), Clock(0)).unwrap().unwrap();
        let (sent, never_arrives) = g1.heartbeat(Clock(500).wall(), secs(1), encode_lease);
        g1.on_heartbeat(sent, timed_out()).unwrap_err();

        // It has the very epoch of the heartbeat in doubt.
        let later = Clock(1000 + SKEW_MILLIS);
        let mut g2 = try_now(&mut store, key, successor, "test", secs(1), later).unwrap().unwrap();
        assert_eq!(g2.epoch(), g1.epoch());
        assert_eq!(release_at(&mut store, &mut g1, later), Ok(()));
        heartbeat(&mut store, &mut g2, secs(1), later).unwrap();

        // What g1 sent comes too late, whenever it comes.
        store.put(never_arrives).unwrap_err();
    }
}

#[test]
fn release_in_doubt_leaves_even_a_look_alike_alone() {
    let mut store = MemoryStore::new();
    let key = "leases/doubt-alike.pb";
    let mut g1 = try_now(&mut store, key, "h1", "test", secs(1), Clock(0)).unwrap().unwrap();
    let later = Clock(1000 + SKEW_MILLIS);
    let (sent, _) = g1.heartbeat(later.wall(), secs(1), encode_lease);
    g1.on_heartbeat(sent, timed_out()).unwrap_err();

    // A successor whose record is the same in every field.
    let mut g2 = try_now(&mut store, key, "h1", "test", secs(1), later).unwrap().unwrap();
    // Someone holds the lease in our name, so this is no success; but it is g2's.
    assert_eq!(release_at(&mut store, &mut g1, later), Err(refused(key, 2)));
    heartbeat(&mut store, &mut g2, secs(1), later).unwrap();
}

#[test]
fn release_in_doubt_waits_for_the_store_to_answer() {
    let mut store = MemoryStore::new();
    let key = "leases/unconfirmed.pb";
    let mut guard = try_now(&mut store, key, "h1", "test", secs(10), Clock(0)).unwrap().unwrap();
    let (sent, _) = guard.heartbeat(Clock(1000).wall(), secs(10), encode_lease);
    guard.on_heartbeat(sent, timed_out()).unwrap_err();
    let later = Clock(10_000 + SKEW_MILLIS);
    let _g2 = try_now(&mut store, key, "h2", "test", secs(10), later).unwrap().unwrap();

    let (release, request) = guard.release(encode_lease);
    let again = match release.on_put(store.put(request)) {
        ReleaseStep::Reread(again) => again,
        other => panic!("{other:?}"),
    };
    // Nothing is known while the read fails.
    let down = Err(StoreError::Other("down".to_string()));
    let again = match again.on_read(down, decode_lease, later.wall()) {
        ReleaseAnswer::Unread(again, error) => {
            assert_eq!(error, CoordError::Store(StoreError::Other("down".to_string())));
            again
        }
        other => panic!("{other:?}"),
    };
    // Once it succeeds, the lease turns out to be someone else's.
    let reply = store.get_bytes(again.key());
    let answer = again.on_read(reply, decode_lease, later.wall());
    assert_eq!(answer, ReleaseAnswer::Finished(Ok(())));
}

#[test]
fn a_heartbeat_that_never_reached_the_store_is_made_up_for() {
    let mut store = MemoryStore::new();
    let key = "leases/unreached.pb";
    let mut guard = try_now(&mut store, key, "h1", "test", secs(10), Clock(0)).unwrap().unwrap();
    let mut task = LeaseGuard::spawn_heartbeat(secs(3), secs(10));

    // The first two heartbeats do not get through; the task keeps trying.
    let mut late = Vec::new();
    for now in [3000, 6000] {
        let round = task.on_wake(&guard).unwrap();
        let (sent, request) = guard.heartbeat(Clock(now).wall(), round.ttl(), encode_lease);
        late.push(request);
        let outcome = guard.on_heartbeat(sent, timed_out());
        task = round.on_heartbeat(&mut guard, &outcome).unwrap();
        assert_eq!(guard.expires_at(), Clock(10_000).wall());
    }
    // The third does, over the version from the start, numbered as the third.
    let round = task.on_wake(&guard).unwrap();
    heartbeat(&mut store, &mut guard, round.ttl(), Clock(9000)).unwrap();
    assert_eq!(guard.expires_at(), Clock(19_000).wall());
    assert_eq!(record(&store, key).epoch, 3);
    assert_eq!(guard.fencing_token(), 0);
    // The others come too late by then, and the lease is not in doubt any more.
    for request in late {
        store.put(request).unwrap_err();
    }
    let (release, request) = guard.release(encode_lease);
    assert_eq!(release.on_put(store.put(request)), ReleaseStep::Finished(Ok(())));
    assert_eq!(record(&store, key).holder, "");
}

#[test]
fn a_heartbeat_that_arrives_after_its_sender_gave_up_is_accounted_for() {
    let mut store = MemoryStore::new();
    let key = "leases/late-request.pb";
    let mut guard = try_now(&mut store, key, "h1", "test", secs(10), Clock(0)).unwrap().unwrap();
    let (sent, late) = guard.heartbeat(Clock(1000).wall(), secs(10), encode_lease);
    guard.on_heartbeat(sent, timed_out()).unwrap_err();
    let (release, request) = guard.release(encode_lease);
    // The heartbeat overtakes the release.
    store.put(late).unwrap();
    let reply = store.put(request);
    assert_eq!(finish_release(&store, release, reply, Clock(2000)), Err(refused(key, 2)));
    assert_eq!(record(&store, key).epoch, 1);
}

#[test]
fn heartbeats_without_rivals_all_succeed() {
    let mut store = MemoryStore::new();
    let key = "leases/alone.pb";
    let mut guard = try_now(&mut store, key, "h1", "test", secs(10), Clock(0)).unwrap().unwrap();
    for n in 1..=50 {
        heartbeat(&mut store, &mut guard, secs(10), Clock(n * 100)).unwrap();
        assert_eq!(record(&store, key).epoch, n);
    }
}

#[test]
fn late_heartbeat_answer_does_not_revive_a_lost_lease() {
    let mut store = MemoryStore::new();
    let key = "leases/late-answer.pb";
    let mut g1 = try_now(&mut store, key, "h1", "test", secs(1), Clock(0)).unwrap().unwrap();

    let (sent, request) = g1.heartbeat(Clock(500).wall(), secs(1), encode_lease);
    let reply = store.put(request);
    // The answer is on its way while the lease runs out and is taken over.
    let taken_over = Clock(1500 + SKEW_MILLIS);
    let mut g2 = try_now(&mut store, key, "h2", "test", secs(10), taken_over).unwrap().unwrap();
    g1.on_heartbeat(sent, reply).unwrap();

    // By then it has nothing usable to tell, and the guard stays out.
    assert!(!g1.expires_at().is_after(taken_over.wall()));
    let outcome = heartbeat(&mut store, &mut g1, secs(10), taken_over);
    assert_eq!(outcome, Err(CoordError::LeaseLost));
    release(&mut store, &mut g1).unwrap();
    heartbeat(&mut store, &mut g2, secs(10), taken_over).unwrap();
}

fn acquire_from(
    store: &mut MemoryStore,
    key: &str,
    wait_up_to: Duration,
    start: u64,
) -> (Option<LeaseGuard>, u64) {
    let mut now = start;
    let mut waiting = acquire(key, "h2", "test", secs(30), wait_up_to, Clock(now).steady());
    loop {
        let attempt = waiting.attempt(Clock(now).wall());
        let plan = attempt.on_read(store.get_bytes(key), decode_lease, encode_lease).unwrap();
        let outcome = match plan {
            AcquirePlan::Finished(outcome) => outcome,
            AcquirePlan::Claim(claim, request) => claim.on_put(store.put(request)),
        };
        match waiting.on_attempt(outcome, Clock(now).steady()) {
            AcquireStep::Finished(outcome) => return (outcome.unwrap(), now),
            AcquireStep::Wait(wait, pause) => {
                let (next, sleep) = wait.on_backoff(draw(&pause));
                now += whole_millis(sleep);
                waiting = next;
            }
        }
    }
}

#[test]
fn acquire_waits_then_succeeds() {
    let mut store = MemoryStore::new();
    let key = "leases/acquire.pb";
    let mut g1 = try_now(&mut store, key, "h1", "test", millis(50), Clock(0)).unwrap().unwrap();
    // g1 holds with 50ms ttl + 2s skew tolerance before stealable.
    let (g2, at) = acquire_from(&mut store, key, secs(3), 0);
    assert_eq!(g2.expect("should acquire within 3s").holder(), "h2");
    assert!((2050..=2250).contains(&at), "acquired at {at}ms");
    // g1 is now stale; dropping it does no harm.
    let request = g1.release_on_drop(encode_lease).unwrap();
    store.put(request).unwrap_err();
    assert_eq!(record(&store, key).holder, "h2");
}

#[test]
fn acquire_times_out() {
    let mut store = MemoryStore::new();
    let key = "leases/timeout.pb";
    let _g1 = try_now(&mut store, key, "h1", "test", secs(60), Clock(0)).unwrap().unwrap();
    let (g2, at) = acquire_from(&mut store, key, millis(200), 0);
    assert!(g2.is_none());
    assert_eq!(at, 200);
}

// ---------------------------------------------------------------------------
// Identity
// ---------------------------------------------------------------------------

#[test]
fn instance_id_is_stable() {
    let nothing_set = InstanceEnv { name: None, instance: None, hostname: None, pid: 1 };
    let mut cell = InstanceId::unknown();
    let a = instance_id(&mut cell, &nothing_set);
    let b = instance_id(&mut cell, &nothing_set);
    assert_eq!(a, b);
    assert!(!a.is_empty());
}
