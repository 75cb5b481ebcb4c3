//! Single steps of the state machines, with exact values.

use prost::Message;
use walgit_coord::acquire::{acquire, try_acquire, AcquirePlan, AcquireStep};
use walgit_coord::cas::{cas_update, CasOutcome, CasPlan};
use walgit_coord::error::CoordError;
use walgit_coord::guard::{
    LeaseGuard, ReleaseAnswer, ReleaseReread, ReleaseStep, RenewalCheck, RenewalProgress,
};
use walgit_coord::instance::{instance_id, InstanceEnv, InstanceId};
use walgit_coord::lease::{
    lease_skew_tolerance, make_lease, release_lease, release_outcome, released_lease, Lease,
};
use walgit_coord::message::{get_message, get_message_if_changed};
use walgit_coord::store::{ObjectMeta, PutMode, PutRequest, StoreError, Version};
use walgit_coord::text::append_decimal;
use walgit_coord::time::{Duration, Instant, SystemTime};

fn meta(version: &str) -> ObjectMeta {
    ObjectMeta { version: Version::new(version) }
}

fn collision() -> StoreError {
    StoreError::PreconditionFailed { key: "k".to_string(), current: Some(Version::new("9")) }
}

fn transient() -> StoreError {
    StoreError::Retryable("busy".to_string())
}

fn broken() -> StoreError {
    StoreError::Other("broken".to_string())
}

fn absent() -> StoreError {
    StoreError::NotFound { key: "k".to_string() }
}

fn at(secs: i64) -> SystemTime {
    SystemTime::from_parts(secs, 0).unwrap()
}

fn latest() -> SystemTime {
    SystemTime::from_parts(i64::MAX, 999_999_999).unwrap()
}

/// Stands for a wire format: it keeps what the tests look at.
fn encode(lease: &Lease) -> Vec<u8> {
    let expires = lease.expires_at.unwrap();
    format!("{}|{}|{}|{}", lease.holder, lease.purpose, expires.secs(), lease.epoch).into_bytes()
}

fn text(request: &PutRequest) -> String {
    String::from_utf8(request.body.clone()).unwrap()
}

fn guard() -> LeaseGuard {
    LeaseGuard::new("k", "h", "p", Version::new("1"), at(100), Duration::from_secs(30), 4)
}

fn decode_text(body: Vec<u8>) -> Result<String, prost::DecodeError> {
    String::decode(body.as_slice())
}

/// Not a protobuf message: a lone key byte with a wire type that does not exist.
fn garbage() -> Vec<u8> {
    vec![0x0f]
}

// --- reading ---------------------------------------------------------------

#[test]
fn get_message_decodes_what_is_found() {
    let body = "hello".to_string().encode_to_vec();
    let read = get_message(Ok(Some((meta("7"), body))), decode_text);
    assert_eq!(read, Ok(Some((meta("7"), "hello".to_string()))));
}

#[test]
fn get_message_of_absent_object_is_none() {
    assert_eq!(get_message(Ok(None), decode_text), Ok(None));
}

#[test]
fn get_message_reports_store_and_decode_errors() {
    // A plain read does not take "not found" for absence.
    assert_eq!(get_message(Err(absent()), decode_text), Err(CoordError::Store(absent())));
    assert_eq!(get_message(Err(broken()), decode_text), Err(CoordError::Store(broken())));
    let read = get_message(Ok(Some((meta("7"), garbage()))), decode_text);
    assert_eq!(read, Err(CoordError::Decode(decode_text(garbage()).unwrap_err())));
}

#[test]
fn get_message_if_changed_takes_not_found_for_absence() {
    assert_eq!(get_message_if_changed(Err(absent()), decode_text), Ok(None));
    assert_eq!(get_message_if_changed(Ok(None), decode_text), Ok(None));
    assert_eq!(
        get_message_if_changed(Err(broken()), decode_text),
        Err(CoordError::Store(broken()))
    );
    let body = "new".to_string().encode_to_vec();
    assert_eq!(
        get_message_if_changed(Ok(Some((meta("8"), body))), decode_text),
        Ok(Some((meta("8"), "new".to_string())))
    );
    assert!(matches!(
        get_message_if_changed(Ok(Some((meta("8"), garbage()))), decode_text),
        Err(CoordError::Decode(_))
    ));
}

#[test]
fn a_read_gives_back_what_was_written() {
    let body = "round trip".to_string().encode_to_vec();
    let read = get_message(Ok(Some((meta("1"), body))), decode_text).unwrap().unwrap();
    assert_eq!(read.1, "round trip");
}

// --- updates ---------------------------------------------------------------

fn encode_number(n: &u64) -> Vec<u8> {
    n.encode_to_vec()
}

fn add_one(current: Option<&u64>) -> Result<Option<u64>, CoordError> {
    Ok(Some(current.copied().unwrap_or(0) + 1))
}

#[test]
fn cas_update_creates_an_absent_object() {
    let plan = cas_update("n", 3).on_current(Ok(None), add_one, encode_number);
    match plan {
        CasPlan::Write(write, request) => {
            assert_eq!(request.key, "n");
            assert_eq!(request.mode, PutMode::Create);
            assert_eq!(request.body, 1u64.encode_to_vec());
            assert_eq!(write.on_put(Ok(meta("1"))), CasOutcome::Finished(Ok(Some((meta("1"), 1)))));
        }
        CasPlan::Finished(outcome) => panic!("{outcome:?}"),
    }
}

#[test]
fn cas_update_replaces_the_version_it_read() {
    let plan = cas_update("n", 3).on_current(Ok(Some((meta("4"), 10))), add_one, encode_number);
    match plan {
        CasPlan::Write(write, request) => {
            assert_eq!(request.mode, PutMode::Update(Version::new("4")));
            assert_eq!(request.body, 11u64.encode_to_vec());
            assert_eq!(write.on_put(Ok(meta("5"))), CasOutcome::Finished(Ok(Some((meta("5"), 11)))));
        }
        CasPlan::Finished(outcome) => panic!("{outcome:?}"),
    }
}

#[test]
fn cas_update_decodes_what_the_store_answers() {
    let body = 41u64.encode_to_vec();
    let decode = |body: Vec<u8>| u64::decode(body.as_slice());
    match cas_update("n", 0).on_read(Ok(Some((meta("2"), body))), decode, add_one, encode_number) {
        CasPlan::Write(_, request) => assert_eq!(request.body, 42u64.encode_to_vec()),
        CasPlan::Finished(outcome) => panic!("{outcome:?}"),
    }
    let failed = cas_update("n", 0).on_read(Err(broken()), decode, add_one, encode_number);
    assert_eq!(failed, CasPlan::Finished(Err(CoordError::Store(broken()))));
    let failed =
        cas_update("n", 0).on_read(Ok(Some((meta("2"), garbage()))), decode, add_one, encode_number);
    assert!(matches!(failed, CasPlan::Finished(Err(CoordError::Decode(_)))));
}

#[test]
fn cas_update_ends_with_its_function() {
    let plan = cas_update("n", 3).on_current(Ok(Some((meta("4"), 10))), |_| Ok(None), encode_number);
    assert_eq!(plan, CasPlan::Finished(Ok(None)));
    let plan = cas_update("n", 3).on_current(
        Ok(None),
        |_| Err(CoordError::Aborted),
        encode_number,
    );
    assert_eq!(plan, CasPlan::Finished(Err(CoordError::Aborted)));
    let plan = cas_update("n", 3).on_current(
        Err(CoordError::Other("no".to_string())),
        add_one,
        encode_number,
    );
    assert_eq!(plan, CasPlan::Finished(Err(CoordError::Other("no".to_string()))));
}

/// The outcome of an update with `max_retries` whose writes all fail so.
fn exhaust(max_retries: u32, failure: fn() -> StoreError) -> (CoordError, u32) {
    let mut update = cas_update("n", max_retries);
    let mut writes: u32 = 0;
    loop {
        let write = match update.on_current(Ok(None), add_one, encode_number) {
            CasPlan::Write(write, _) => write,
            CasPlan::Finished(outcome) => panic!("{outcome:?}"),
        };
        writes += 1;
        update = match write.on_put(Err(failure())) {
            CasOutcome::Finished(outcome) => return (outcome.unwrap_err(), writes),
            CasOutcome::Reread(next) => next,
            CasOutcome::Backoff(next, _) => next,
        };
        assert_eq!(update.attempts(), writes);
    }
}

#[test]
fn cas_update_exhausts_its_retries() {
    for failure in [collision, transient] {
        for max_retries in [0, 1, 5] {
            let (error, writes) = exhaust(max_retries, failure);
            assert_eq!(writes, max_retries + 1);
            assert_eq!(
                error,
                CoordError::RetriesExhausted { key: "n".to_string(), attempts: max_retries + 1 }
            );
        }
    }
}

#[test]
fn cas_update_rereads_on_collision_and_pauses_on_transient_failure() {
    let write = |update: walgit_coord::cas::CasUpdate| {
        match update.on_current(Ok(None), add_one, encode_number) {
            CasPlan::Write(write, _) => write,
            CasPlan::Finished(outcome) => panic!("{outcome:?}"),
        }
    };
    let update = match write(cas_update("n", 9)).on_put(Err(collision())) {
        CasOutcome::Reread(update) => update,
        other => panic!("{other:?}"),
    };
    assert_eq!(update.attempts(), 1);
    match write(update).on_put(Err(transient())) {
        CasOutcome::Backoff(update, pause) => {
            assert_eq!(update.attempts(), 2);
            assert_eq!(pause.attempt, 1);
            assert_eq!(pause.base, Duration::from_millis(5));
            assert_eq!(pause.cap, Duration::from_millis(100));
        }
        other => panic!("{other:?}"),
    }
    for failure in [broken, absent] {
        let outcome = write(cas_update("n", 9)).on_put(Err(failure()));
        assert_eq!(outcome, CasOutcome::Finished(Err(CoordError::Store(failure()))));
    }
}

// --- lease records ---------------------------------------------------------

#[test]
fn lease_records() {
    let lease = make_lease("h", "p", at(100), Duration::from_millis(1500), 3);
    assert_eq!(
        lease,
        Lease {
            holder: "h".to_string(),
            purpose: "p".to_string(),
            acquired_at: Some(at(100)),
            expires_at: SystemTime::from_parts(101, 500_000_000),
            epoch: 3,
        }
    );
    assert_eq!(
        released_lease("p", 8),
        Lease {
            holder: String::new(),
            purpose: "p".to_string(),
            acquired_at: None,
            expires_at: Some(SystemTime::unix_epoch()),
            epoch: 8,
        }
    );
    assert_eq!(lease_skew_tolerance(), Duration::from_secs(2));
}

#[test]
fn release_lease_writes_a_tombstone_over_its_own_version() {
    let request = release_lease("k", "p", Version::new("3"), 6, encode);
    assert_eq!(request.key, "k");
    assert_eq!(request.mode, PutMode::Update(Version::new("3")));
    assert_eq!(text(&request), "|p|0|6");
}

#[test]
fn release_counts_a_lease_already_gone_as_given_up() {
    assert_eq!(release_outcome(Ok(meta("2"))), Ok(()));
    assert_eq!(release_outcome(Err(collision())), Ok(()));
    assert_eq!(release_outcome(Err(absent())), Ok(()));
    assert_eq!(release_outcome(Err(transient())), Err(CoordError::Store(transient())));
    assert_eq!(release_outcome(Err(broken())), Err(CoordError::Store(broken())));
}

// --- guards ----------------------------------------------------------------

#[test]
fn new_guard() {
    let guard = guard();
    assert_eq!(guard.key(), "k");
    assert_eq!(guard.holder(), "h");
    assert_eq!(guard.expires_at(), at(130));
    assert_eq!(guard.fencing_token(), 4);
    assert_eq!(guard.epoch(), 4);
}

#[test]
fn heartbeat_extends_the_lease() {
    let mut guard = guard();
    let (sent, request) = guard.heartbeat(at(110), Duration::from_secs(60), encode);
    assert_eq!(request.mode, PutMode::Update(Version::new("1")));
    assert_eq!(text(&request), "h|p|170|5");
    // Nothing is extended before the store has answered.
    assert_eq!(guard.expires_at(), at(130));
    assert_eq!(guard.on_heartbeat(sent, Ok(meta("2"))), Ok(()));
    assert_eq!(guard.expires_at(), at(170));
    assert_eq!(guard.epoch(), 5);
    assert_eq!(guard.fencing_token(), 4);
    // The next heartbeat goes over the version just written.
    let (_, request) = guard.heartbeat(at(111), Duration::from_secs(60), encode);
    assert_eq!(request.mode, PutMode::Update(Version::new("2")));
    assert_eq!(text(&request), "h|p|171|6");
}

#[test]
fn failed_heartbeat_leaves_version_and_expiry() {
    for (failure, outcome) in [
        (collision(), CoordError::LeaseLost),
        (transient(), CoordError::Store(transient())),
        (absent(), CoordError::Store(absent())),
    ] {
        let mut guard = guard();
        let (sent, _) = guard.heartbeat(at(110), Duration::from_secs(60), encode);
        assert_eq!(guard.on_heartbeat(sent, Err(failure)), Err(outcome));
        assert_eq!(guard.expires_at(), at(130));
        assert_eq!(guard.epoch(), 5);
        let (_, request) = guard.heartbeat(at(110), Duration::from_secs(60), encode);
        assert_eq!(request.mode, PutMode::Update(Version::new("1")));
    }
}

#[test]
fn a_guard_is_given_up_once() {
    let mut guard = guard();
    let (release, request) = guard.release(encode);
    assert_eq!(request.key, "k");
    assert_eq!(request.mode, PutMode::Update(Version::new("1")));
    assert_eq!(text(&request), "|p|0|4");
    assert_eq!(release.on_put(Ok(meta("2"))), ReleaseStep::Finished(Ok(())));
    assert_eq!(guard.release_on_drop(encode), None);
    assert_eq!(guard.fencing_token(), 4);
}

#[test]
fn a_guard_not_given_up_is_on_drop() {
    let mut guard = guard();
    let request = guard.release_on_drop(encode).unwrap();
    assert_eq!(request.mode, PutMode::Update(Version::new("1")));
    assert_eq!(text(&request), "|p|0|4");
    assert_eq!(guard.release_on_drop(encode), None);
}

/// The record of a heartbeat of [`guard`]'s at 110 s for 60 s.
fn heartbeat_record() -> Lease {
    make_lease("h", "p", at(110), Duration::from_secs(60), 5)
}

/// A release of [`guard`]'s after a heartbeat that was answered so.
fn release_after(reply: Result<ObjectMeta, StoreError>) -> walgit_coord::guard::LeaseRelease {
    let mut guard = guard();
    let (sent, _) = guard.heartbeat(at(110), Duration::from_secs(60), encode);
    let _ = guard.on_heartbeat(sent, reply);
    guard.release(encode).0
}

#[test]
fn release_goes_by_the_answer_where_nothing_is_in_doubt() {
    for known in [Ok(meta("2")), Err(collision())] {
        let release = release_after(known);
        assert_eq!(release.on_put(Err(collision())), ReleaseStep::Finished(Ok(())));
    }
    for (answer, outcome) in [
        (Ok(meta("3")), Ok(())),
        (Err(absent()), Ok(())),
        (Err(transient()), Err(CoordError::Store(transient()))),
        (Err(broken()), Err(CoordError::Store(broken()))),
    ] {
        assert_eq!(release_after(Err(transient())).on_put(answer), ReleaseStep::Finished(outcome));
    }
}

/// A release whose write collided after a heartbeat that failed so.
fn reread_after(doubt: StoreError) -> ReleaseReread {
    match release_after(Err(doubt)).on_put(Err(collision())) {
        ReleaseStep::Reread(again) => again,
        other => panic!("{other:?}"),
    }
}

#[test]
fn release_fails_where_a_heartbeat_in_doubt_holds_the_lease() {
    for doubt in [transient(), broken(), absent()] {
        let again = reread_after(doubt);
        assert_eq!(again.key(), "k");
        let found = Ok(Some((meta("9"), heartbeat_record())));
        let failed = ReleaseAnswer::Finished(Err(CoordError::Store(collision())));
        assert_eq!(again.on_current(found, at(169)), failed);
    }
    // One that has run out holds nothing.
    let found = Ok(Some((meta("9"), heartbeat_record())));
    let answer = reread_after(transient()).on_current(found, at(170));
    assert_eq!(answer, ReleaseAnswer::Finished(Ok(())));
}

#[test]
fn release_in_doubt_takes_nothing_else_for_its_own() {
    let mut others = Vec::new();
    for field in 0..7 {
        let mut lease = heartbeat_record();
        match field {
            0 => lease.holder = "H".to_string(),
            1 => lease.purpose = "P".to_string(),
            2 => lease.acquired_at = None,
            3 => lease.acquired_at = Some(at(111)),
            4 => lease.expires_at = Some(at(171)),
            5 => lease.expires_at = None,
            _ => lease.epoch = 6,
        }
        others.push(Ok(Some((meta("9"), lease))));
    }
    others.push(Ok(None));
    others.push(Err(CoordError::Store(absent())));
    others.push(Err(CoordError::Decode(decode_text(garbage()).unwrap_err())));
    for other in others {
        let answer = reread_after(transient()).on_current(other, at(120));
        assert_eq!(answer, ReleaseAnswer::Finished(Ok(())));
    }
}

#[test]
fn release_in_doubt_is_open_while_the_read_fails() {
    for failure in [transient(), broken(), collision()] {
        let known = CoordError::Store(failure);
        match reread_after(transient()).on_current(Err(known), at(120)) {
            ReleaseAnswer::Unread(again, CoordError::Store(_)) => {
                assert_eq!(again, reread_after(transient()));
            }
            other => panic!("{other:?}"),
        }
    }
}

#[test]
fn a_heartbeat_never_answered_is_in_doubt() {
    let mut guard = guard();
    let _ = guard.heartbeat(at(110), Duration::from_secs(60), encode);
    let (release, _) = guard.release(encode);
    assert!(matches!(release.on_put(Err(collision())), ReleaseStep::Reread(_)));
}

#[test]
fn renewal_leaves_a_fresh_lease_alone() {
    let guard = guard();
    // A third of 30 s is 10 s: usable strictly before 120 s.
    let before = SystemTime::from_parts(119, 999_999_999).unwrap();
    let renewal = guard.renew_if_needed(Duration::from_secs(30));
    assert_eq!(renewal.margin(), Duration::from_secs(10));
    assert_eq!(renewal.check(&guard, before), RenewalCheck::Finished(true));
    let renewal = guard.renew_if_needed(Duration::from_secs(30));
    assert!(matches!(renewal.check(&guard, at(120)), RenewalCheck::Heartbeat(_)));
}

#[test]
fn renewal_gives_up_after_two_heartbeats() {
    let guard = guard();
    let mut renewal = guard.renew_if_needed(Duration::from_secs(30));
    for _ in 0..2 {
        renewal = match renewal.check(&guard, at(500)) {
            RenewalCheck::Heartbeat(next) => next,
            other => panic!("{other:?}"),
        };
        assert_eq!(renewal.ttl(), Duration::from_secs(30));
        renewal = match renewal.on_heartbeat(Ok(())) {
            RenewalProgress::Check(next) => next,
            other => panic!("{other:?}"),
        };
    }
    assert_eq!(renewal.check(&guard, at(500)), RenewalCheck::Finished(false));
}

#[test]
fn renewal_succeeds_on_a_timely_heartbeat() {
    let mut guard = guard();
    let renewal = guard.renew_if_needed(Duration::from_secs(30));
    let renewal = match renewal.check(&guard, at(125)) {
        RenewalCheck::Heartbeat(next) => next,
        other => panic!("{other:?}"),
    };
    let (sent, _) = guard.heartbeat(at(125), renewal.ttl(), encode);
    let outcome = guard.on_heartbeat(sent, Ok(meta("2")));
    let renewal = match renewal.on_heartbeat(outcome) {
        RenewalProgress::Check(next) => next,
        other => panic!("{other:?}"),
    };
    assert_eq!(renewal.check(&guard, at(126)), RenewalCheck::Finished(true));
}

#[test]
fn renewal_of_a_lost_lease_is_false_and_other_failures_are_its_own() {
    let renewal = guard().renew_if_needed(Duration::from_secs(30));
    assert_eq!(
        renewal.on_heartbeat(Err(CoordError::LeaseLost)),
        RenewalProgress::Finished(Ok(false))
    );
    let renewal = guard().renew_if_needed(Duration::from_secs(30));
    assert_eq!(
        renewal.on_heartbeat(Err(CoordError::Store(broken()))),
        RenewalProgress::Finished(Err(CoordError::Store(broken())))
    );
}

#[test]
fn heartbeat_task_stops_on_a_lost_lease_only() {
    let mut guard = guard();
    let task = LeaseGuard::spawn_heartbeat(Duration::from_secs(5), Duration::from_secs(15));
    assert_eq!(task.every(), Duration::from_secs(5));
    let round = task.on_wake(&guard).unwrap();
    assert_eq!(round.ttl(), Duration::from_secs(15));
    let task = round.on_heartbeat(&mut guard, &Ok(())).unwrap();
    let round = task.on_wake(&guard).unwrap();
    let task = round.on_heartbeat(&mut guard, &Err(CoordError::Store(transient()))).unwrap();
    assert_eq!(task.every(), Duration::from_secs(5));
    let round = task.on_wake(&guard).unwrap();
    assert_eq!(round.on_heartbeat(&mut guard, &Err(CoordError::LeaseLost)), None);
    // Nor does a task go on with a guard that was given up.
    let task = LeaseGuard::spawn_heartbeat(Duration::from_secs(5), Duration::from_secs(15));
    assert_eq!(task.on_wake(&guard), None);
    // What was lost is not given up again.
    assert_eq!(guard.release_on_drop(encode), None);
}

// --- acquiring -------------------------------------------------------------

fn stored(expires_at: Option<SystemTime>, epoch: u64) -> Lease {
    Lease {
        holder: "other".to_string(),
        purpose: "p".to_string(),
        acquired_at: None,
        expires_at,
        epoch,
    }
}

fn attempt(now: SystemTime, lease: Lease) -> AcquirePlan {
    try_acquire("k", "h", "p", Duration::from_secs(30), now)
        .on_current(Ok(Some((meta("5"), lease))), encode)
}

#[test]
fn an_absent_lease_is_created_with_epoch_zero() {
    let plan =
        try_acquire("k", "h", "p", Duration::from_secs(30), at(100)).on_current(Ok(None), encode);
    match plan {
        AcquirePlan::Claim(claim, request) => {
            assert_eq!(request.key, "k");
            assert_eq!(request.mode, PutMode::Create);
            assert_eq!(text(&request), "h|p|130|0");
            let guard = claim.on_put(Ok(meta("1"))).unwrap().unwrap();
            assert_eq!(guard.fencing_token(), 0);
            assert_eq!(guard.expires_at(), at(130));
            assert_eq!(guard.holder(), "h");
        }
        other => panic!("{other:?}"),
    }
}

#[test]
fn an_expired_lease_is_taken_over_exactly_after_the_grace() {
    let expiry = Some(at(100));
    let just_before = SystemTime::from_parts(101, 999_999_999).unwrap();
    assert_eq!(attempt(just_before, stored(expiry, 7)), AcquirePlan::Finished(Ok(None)));
    match attempt(at(102), stored(expiry, 7)) {
        AcquirePlan::Claim(claim, request) => {
            assert_eq!(request.mode, PutMode::Update(Version::new("5")));
            assert_eq!(text(&request), "h|p|132|8");
            assert_eq!(claim.on_put(Ok(meta("6"))).unwrap().unwrap().fencing_token(), 8);
        }
        other => panic!("{other:?}"),
    }
}

#[test]
fn a_lease_without_expiry_has_run_out() {
    assert!(matches!(attempt(at(2), stored(None, 1)), AcquirePlan::Claim(_, _)));
    assert_eq!(attempt(at(1), stored(None, 1)), AcquirePlan::Finished(Ok(None)));
}

#[test]
fn a_claim_that_comes_second_gets_nothing() {
    let claim = |reply: Result<ObjectMeta, StoreError>| match attempt(at(500), stored(None, 1)) {
        AcquirePlan::Claim(claim, _) => claim.on_put(reply),
        other => panic!("{other:?}"),
    };
    assert_eq!(claim(Err(collision())), Ok(None));
    assert_eq!(claim(Err(transient())), Err(CoordError::Store(transient())));
    assert_eq!(claim(Err(absent())), Err(CoordError::Store(absent())));
    let failed = try_acquire("k", "h", "p", Duration::from_secs(30), at(1))
        .on_current(Err(CoordError::Store(broken())), encode);
    assert_eq!(failed, AcquirePlan::Finished(Err(CoordError::Store(broken()))));
}

#[test]
fn numbers_that_do_not_fit_are_refused_on_reading() {
    let plan = |now: SystemTime, lease: Lease| {
        let mut lease = Some(lease);
        try_acquire("k", "h", "p", Duration::from_secs(30), now).on_read(
            Ok(Some((meta("5"), Vec::new()))),
            |_| Ok(lease.take().unwrap()),
            encode,
        )
    };
    // The end of the grace is past the end of time.
    assert_eq!(plan(at(1), stored(Some(latest()), 1)), None);
    // The next epoch does not exist, but only matters to a taker.
    assert_eq!(plan(at(500), stored(Some(at(100)), u64::MAX)), None);
    assert_eq!(
        plan(at(1), stored(Some(at(100)), u64::MAX)),
        Some(AcquirePlan::Finished(Ok(None)))
    );
    // The claimed expiry is past the end of time.
    assert_eq!(plan(latest(), stored(Some(at(100)), 1)), None);
    assert!(matches!(
        plan(at(500), stored(Some(at(100)), 1)),
        Some(AcquirePlan::Claim(_, _))
    ));
    let failed = try_acquire("k", "h", "p", Duration::from_secs(30), at(1)).on_read(
        Err(broken()),
        |_| Ok(stored(None, 0)),
        encode,
    );
    assert_eq!(failed, Some(AcquirePlan::Finished(Err(CoordError::Store(broken())))));
}

fn instant(millis: u64) -> Instant {
    Instant::after_origin(Duration::from_millis(millis))
}

#[test]
fn waiting_ends_at_the_deadline() {
    let start = || {
        acquire("k", "h", "p", Duration::from_secs(30), Duration::from_millis(200), instant(1000))
    };
    assert_eq!(start().on_attempt(Ok(None), instant(1200)), AcquireStep::Finished(Ok(None)));
    assert!(matches!(start().on_attempt(Ok(None), instant(1199)), AcquireStep::Wait(_, _)));
    // A lease or a failure that comes in late still counts.
    assert_eq!(
        start().on_attempt(Ok(Some(guard())), instant(9999)),
        AcquireStep::Finished(Ok(Some(guard())))
    );
    assert_eq!(
        start().on_attempt(Err(CoordError::Store(broken())), instant(1000)),
        AcquireStep::Finished(Err(CoordError::Store(broken())))
    );
}

#[test]
fn waiting_sleeps_no_longer_than_what_is_left() {
    let mut waiting =
        acquire("k", "h", "p", Duration::from_secs(30), Duration::from_millis(200), instant(0));
    assert_eq!(waiting.attempt(at(7)), try_acquire("k", "h", "p", Duration::from_secs(30), at(7)));
    for (round, now, drawn, sleep) in [(0, 0, 50, 50), (1, 50, 150, 150), (2, 120, 100, 80)] {
        let (wait, pause) = match waiting.on_attempt(Ok(None), instant(now)) {
            AcquireStep::Wait(wait, pause) => (wait, pause),
            other => panic!("{other:?}"),
        };
        assert_eq!(pause.attempt, round);
        assert_eq!(pause.base, Duration::from_millis(10));
        assert_eq!(pause.cap, Duration::from_millis(200));
        let (next, length) = wait.on_backoff(Duration::from_millis(drawn));
        assert_eq!(length, Duration::from_millis(sleep));
        assert_eq!(next.attempts(), round + 1);
        waiting = next;
    }
}

// --- identity --------------------------------------------------------------

fn env(name: &str, instance: &str, hostname: &str) -> InstanceEnv {
    InstanceEnv {
        name: Some(name.to_string()),
        instance: Some(instance.to_string()),
        hostname: Some(hostname.to_string()),
        pid: 4711,
    }
}

#[test]
fn identity_prefers_name_and_instance() {
    assert_eq!(env("svc", "3", "host").identity(), Some("svc/3".to_string()));
    assert_eq!(env("svc", "", "host").identity(), Some("host/4711".to_string()));
    assert_eq!(env("", "3", "host").identity(), Some("host/4711".to_string()));
    assert_eq!(env("svc", "", "").identity(), None);
    let unnamed =
        InstanceEnv { name: None, instance: Some("3".to_string()), hostname: None, pid: 1 };
    assert_eq!(unnamed.identity(), None);
}

#[test]
fn instance_id_keeps_its_first_answer() {
    let mut cell = InstanceId::unknown();
    assert_eq!(instance_id(&mut cell, &env("svc", "3", "host")), "svc/3");
    assert_eq!(instance_id(&mut cell, &env("other", "4", "elsewhere")), "svc/3");
}

#[test]
fn instance_id_falls_back_on_a_random_uuid() {
    let nothing = env("", "", "");
    let a = instance_id(&mut InstanceId::unknown(), &nothing);
    let b = instance_id(&mut InstanceId::unknown(), &nothing);
    assert_ne!(a, b);
    for id in [a, b] {
        assert_eq!(id.len(), 36);
        for (i, c) in id.chars().enumerate() {
            if i == 8 || i == 13 || i == 18 || i == 23 {
                assert_eq!(c, '-');
            } else {
                assert!(c.is_ascii_digit() || ('a'..='f').contains(&c), "{id}");
            }
        }
        assert_eq!(id.as_bytes()[14], b'4');
        assert!("89ab".contains(char::from(id.as_bytes()[19])), "{id}");
    }
}

// --- words -----------------------------------------------------------------

#[test]
fn errors_in_words() {
    assert_eq!(CoordError::Store(broken()).message("broken"), "store error: broken");
    let decode = decode_text(garbage()).unwrap_err();
    let cause = decode.to_string();
    assert_eq!(
        CoordError::Decode(decode).message(&cause),
        format!("protobuf decode error: {cause}")
    );
    assert_eq!(CoordError::Aborted.message("-"), "operation aborted");
    assert_eq!(CoordError::LeaseLost.message("-"), "lease lost");
    let exhausted = CoordError::RetriesExhausted { key: "manifest.pb".to_string(), attempts: 101 };
    assert_eq!(exhausted.message("-"), "retries exhausted on manifest.pb after 101 attempts");
    assert_eq!(CoordError::Other("in my own words".to_string()).message("-"), "in my own words");
}

#[test]
fn numbers_in_decimal() {
    for n in [0, 7, 10, 99, 100, 4711, 4_294_967_295] {
        let mut text = "n=".to_string();
        append_decimal(&mut text, n);
        assert_eq!(text, format!("n={n}"));
    }
}

// --- time ------------------------------------------------------------------

#[test]
fn durations() {
    let d = Duration::from_millis(1234);
    assert_eq!((d.as_secs(), d.subsec_nanos()), (1, 234_000_000));
    assert_eq!(Duration::from_parts(1, 234_000_000), Some(d));
    assert_eq!(Duration::from_parts(1, 1_000_000_000), None);
    assert_eq!(Duration::from_secs(1).third(), Duration::from_parts(0, 333_333_333).unwrap());
    assert_eq!(Duration::from_secs(5).third(), Duration::from_parts(1, 666_666_666).unwrap());
    assert_eq!(d.min(Duration::from_secs(1)), Duration::from_secs(1));
    assert_eq!(d.min(Duration::from_secs(2)), d);
}

#[test]
fn wall_clock() {
    let t = SystemTime::from_parts(-1, 700_000_000).unwrap();
    let later = t.checked_add(Duration::from_millis(400)).unwrap();
    assert_eq!((later.secs(), later.subsec_nanos()), (0, 100_000_000));
    assert_eq!(t.plus(Duration::from_millis(300)), SystemTime::unix_epoch());
    assert!(later.is_after(t));
    assert!(!t.is_after(later));
    assert!(!t.is_after(t));
    assert_eq!(latest().checked_add(Duration::from_parts(0, 1).unwrap()), None);
    let earliest = SystemTime::from_parts(i64::MIN, 0).unwrap();
    assert_eq!(earliest.checked_add(Duration::from_secs(u64::MAX)), Some(at(i64::MAX)));
    assert_eq!(SystemTime::from_parts(0, 1_000_000_000), None);
}

#[test]
fn monotonic_clock() {
    let a = instant(1500);
    let b = a.plus(Duration::from_millis(700));
    assert_eq!(b, instant(2200));
    assert!(b.is_after(a) && !a.is_after(b) && !a.is_after(a));
    assert_eq!(b.saturating_duration_since(a), Duration::from_millis(700));
    assert_eq!(a.saturating_duration_since(b), Duration::from_secs(0));
    let end = Instant::after_origin(Duration::from_secs(u64::MAX));
    assert_eq!(end.checked_add(Duration::from_secs(1)), None);
}
