//! What the holders of one lease promise together.

use vstd::prelude::*;

use crate::acquire::{AcquirePlan, ContenderView};
use crate::error::CoordError;
use crate::guard::{GuardView, LeaseGuard};
use crate::lease::{Lease, LeaseView};
use crate::model::Slot;
use crate::store::{ObjectMeta, PutRequest, StoreError};
use crate::world::{Event, InFlight, Request, World};

verus! {

/// The lease that a contender read, as the record's slot shows it.
pub open spec fn shown_lease(read: Option<(ObjectMeta, Lease)>) -> Option<(Seq<char>, LeaseView)> {
    match read {
        None => None,
        Some((meta, lease)) => Some((meta.version@, lease@)),
    }
}

/// Whether an answer tells its sender what became of the write.
pub open spec fn tells(reply: Result<ObjectMeta, StoreError>) -> bool {
    match reply {
        Ok(_) => true,
        Err(StoreError::PreconditionFailed { key, current }) => true,
        Err(_) => false,
    }
}

/// A try at the lease is a claim in the sense of these laws, or leaves the lease
/// alone: it asks for a write exactly if the world allows the claim, the write
/// it asks for is the claim's, and the guard it returns for an answered write is
/// the one the claim hands out.
pub proof fn law_try_is_a_claim<E: FnOnce(&Lease) -> Vec<u8>>(
    world: World,
    id: nat,
    contender: ContenderView,
    read: Option<(ObjectMeta, Lease)>,
    encode: E,
    plan: AcquirePlan,
    fresh: Seq<char>,
    answered: bool,
)
    requires
        !world.guards.contains_key(id),
        world.slot.has_shown(shown_lease(read)),
        world.slot.is_fresh(fresh),
        crate::acquire::attempted(contender, Ok(read), encode, plan),
    ensures
        ({
            let claimed = Event::Claim { id, contender, seen: shown_lease(read), fresh, answered };
            match plan {
                AcquirePlan::Finished(outcome) => outcome == Ok::<Option<LeaseGuard>, CoordError>(
                    None,
                ) && !world.allows(claimed),
                AcquirePlan::Claim(claim, request) => {
                    let record = contender.claim_record(claim.claimed_epoch());
                    let next = world.after(claimed);
                    &&& world.allows(claimed)
                    &&& crate::lease::writes_lease(
                        request,
                        contender.key,
                        request.mode@,
                        record,
                        encode,
                    )
                    &&& next.slot == world.slot.put(request.mode@, record, fresh)
                    &&& world.slot.admits(request.mode@) && answered ==> next.guards[id]
                        == claim.contender().claimed(fresh, claim.claimed_epoch())
                },
            }
        }),
{
    assert(crate::model::demand(shown_lease(read)) == crate::cas::seen_version(read));
    assert(crate::world::read_record(shown_lease(read)) == crate::acquire::seen_record(read));
}

/// Sending a heartbeat is an event in the sense of these laws: the record is left
/// as it is, and the write that the library asks for is on its way.
pub proof fn law_heartbeat_is_an_event(world: World, id: nat, now: int, ttl: int)
    requires
        world.guards.contains_key(id),
    ensures
        ({
            let guard = world.guards[id];
            let sent = Event::Heartbeat { id, now, ttl };
            let request = Request {
                id,
                version: guard.version,
                record: guard.heartbeat_record(now, ttl),
            };
            &&& world.allows(sent)
            &&& world.after(sent).guards[id] == guard.heartbeat_sent(now, ttl)
            &&& world.after(sent).slot == world.slot
            &&& world.after(sent).requests.contains(request)
            &&& request.record.is_live()
            &&& request.heartbeat() == guard.next_heartbeat(now, ttl)
        }),
{
}

/// A heartbeat that reaches the store is an event in the sense of these laws,
/// whatever the store answers, and however much later: the guard that comes out
/// of it and the record that is left are those of the world after the event.
pub proof fn law_heartbeat_arriving_is_an_event(
    world: World,
    request: Request,
    fresh: Seq<char>,
    reply: Result<ObjectMeta, StoreError>,
)
    requires
        world.requests.contains(request),
        request.record.is_live(),
        world.guards.contains_key(request.id),
        world.slot.is_fresh(fresh),
        world.slot.can_answer(Some(request.version), fresh, reply),
    ensures
        ({
            let arrives = Event::Arrives { request, fresh, answered: tells(reply) };
            &&& world.allows(arrives)
            &&& world.after(arrives).guards[request.id]
                == world.guards[request.id].heartbeat_answered(request.heartbeat(), reply)
            &&& world.after(arrives).slot == world.slot.put(
                Some(request.version),
                request.record,
                fresh,
            )
        }),
{
}

/// A heartbeat that does not reach the store is no more of an event than its
/// sending: whatever failure its sender is told of, the guard that comes out of
/// it is that of the world after the sending, and the record is left as it is.
pub proof fn law_lost_heartbeat_is_its_sending(
    world: World,
    id: nat,
    now: int,
    ttl: int,
    reply: Result<ObjectMeta, StoreError>,
)
    requires
        world.guards.contains_key(id),
        !tells(reply),
    ensures
        ({
            let sent = Event::Heartbeat { id, now, ttl };
            &&& world.after(sent).guards[id] == world.guards[id].after_heartbeat(now, ttl, reply)
            &&& world.after(sent).slot == world.slot
        }),
{
}

/// Whether an event is none of the guard `id`'s, nor of its requests'.
pub open spec fn of_others(event: Event, id: nat) -> bool {
    match event {
        Event::Passes { until } => true,
        Event::Claim { id: other, contender, seen, fresh, answered } => other != id,
        Event::Heartbeat { id: other, now, ttl } => other != id,
        Event::Release { id: other } => other != id,
        Event::Arrives { request, fresh, answered } => request.id != id,
        Event::Answer { id: other } => other != id,
    }
}

/// An answer that comes late is an event in the sense of these laws: after a
/// heartbeat that was written and not answered at once, and whatever others did
/// in between, the guard that comes out of the answer is that of the world after
/// the event, and the record is left as it is.
pub proof fn law_late_answer_is_an_event(
    world: World,
    request: Request,
    fresh: Seq<char>,
    between: Seq<Event>,
    meta: ObjectMeta,
)
    requires
        world.guards.contains_key(request.id),
        request.record.is_live(),
        world.slot.admits(Some(request.version)),
        meta.version@ == fresh,
        forall|i: int| 0 <= i < between.len() ==> of_others(#[trigger] between[i], request.id),
    ensures
        ({
            let id = request.id;
            let written = world.after(Event::Arrives { request, fresh, answered: false });
            let later = crate::world::history(written, between);
            &&& later.allows(Event::Answer { id })
            &&& later.after(Event::Answer { id }).guards[id]
                == world.guards[id].heartbeat_answered(request.heartbeat(), Ok(meta))
            &&& later.after(Event::Answer { id }).slot == later.slot
        }),
{
    lemma_answer_waits(world, request, fresh, between);
}

proof fn lemma_answer_waits(world: World, request: Request, fresh: Seq<char>, between: Seq<Event>)
    requires
        world.guards.contains_key(request.id),
        request.record.is_live(),
        world.slot.admits(Some(request.version)),
        forall|i: int| 0 <= i < between.len() ==> of_others(#[trigger] between[i], request.id),
    ensures
        ({
            let id = request.id;
            let written = world.after(Event::Arrives { request, fresh, answered: false });
            let later = crate::world::history(written, between);
            &&& later.answers.contains_pair(
                id,
                InFlight { version: fresh, expires_at: request.record.runs_out() },
            )
            &&& later.guards.contains_pair(id, world.guards[id])
        }),
    decreases between.len(),
{
    if between.len() > 0 {
        let earlier = between.drop_last();
        assert forall|i: int| 0 <= i < earlier.len() implies of_others(
            #[trigger] earlier[i],
            request.id,
        ) by {
            assert(earlier[i] == between[i]);
        }
        lemma_answer_waits(world, request, fresh, earlier);
        assert(of_others(between[between.len() - 1], request.id));
    }
}

/// Giving a lease up is an event in the sense of these laws: the record is left
/// as it is, and the write that the library asks for is on its way.
pub proof fn law_release_is_an_event(world: World, id: nat)
    requires
        world.guards.contains_key(id),
    ensures
        ({
            let guard = world.guards[id];
            let released = Event::Release { id };
            &&& world.allows(released)
            &&& world.after(released).guards[id] == guard.given_up()
            &&& world.after(released).slot == world.slot
            &&& world.after(released).requests.contains(
                Request { id, version: guard.version, record: guard.release_record() },
            )
        }),
{
}

/// A release that reaches the store is an event in the sense of these laws: the
/// guard is left as it is, and so is the record unless the write is made.
pub proof fn law_release_arriving_is_an_event(
    world: World,
    request: Request,
    fresh: Seq<char>,
    answered: bool,
)
    requires
        world.requests.contains(request),
        !request.record.is_live(),
        world.slot.is_fresh(fresh),
    ensures
        ({
            let arrives = Event::Arrives { request, fresh, answered };
            &&& world.allows(arrives)
            &&& world.after(arrives).guards == world.guards
            &&& world.after(arrives).slot == world.slot.put(
                Some(request.version),
                request.record,
                fresh,
            )
        }),
{
}

/// A lease read gives back the record that was written: if decoding a lease
/// undoes encoding it, whoever reads the contents of a lease write sees the very
/// record that was asked for.
pub proof fn law_lease_read_gives_back_record<D, E>(
    request: PutRequest,
    key: Seq<char>,
    mode: Option<Seq<char>>,
    record: LeaseView,
    encode: E,
    decode: D,
    meta: ObjectMeta,
    read: Result<Option<(ObjectMeta, Lease)>, CoordError>,
) where D: FnOnce(Vec<u8>) -> Result<Lease, prost::DecodeError>, E: FnOnce(&Lease) -> Vec<u8>
    requires
        crate::lease::writes_lease(request, key, mode, record, encode),
        forall|lease: Lease, decoded: Result<Lease, prost::DecodeError>|
            #![trigger encode.ensures((&lease,), request.body), decode.ensures((request.body,), decoded)]
            encode.ensures((&lease,), request.body) && decode.ensures((request.body,), decoded)
                ==> decoded is Ok && decoded->Ok_0@ == lease@,
        crate::message::fetched(Ok(Some((meta, request.body))), decode, read),
    ensures
        read is Ok,
        shown_lease(read->Ok_0) == Some((meta.version@, record)),
{
    let lease = choose|lease: Lease|
        #![trigger encode.ensures((&lease,), request.body)]
        lease@ == record && encode.ensures((&lease,), request.body);
    assert(encode.ensures((&lease,), request.body));
}

/// Leases are exclusive. However claims, heartbeats and releases of one lease
/// interleave, and whichever requests and answers come late or get lost: as long
/// as no contender's clock runs more than `lead` ahead and no holder's more than
/// `lag` behind, and the two together stay within the skew tolerance, no two
/// guards are in use at once. This is of heartbeats that do not cut the lease
/// short behind their sender's back.
pub proof fn law_leases_are_exclusive(
    time: int,
    events: Seq<Event>,
    lead: int,
    lag: int,
    a: nat,
    now_a: int,
    b: nat,
    now_b: int,
)
    requires
        crate::world::possible(crate::world::untouched(time), events),
        crate::world::all_timely(crate::world::untouched(time), events, lead),
        lead + lag <= crate::lease::skew_tolerance(),
        now_a >= crate::world::history(crate::world::untouched(time), events).time - lag,
        now_b >= crate::world::history(crate::world::untouched(time), events).time - lag,
        a != b,
    ensures
        ({
            let world = crate::world::history(crate::world::untouched(time), events);
            !(world.in_use(a, now_a) && world.in_use(b, now_b))
        }),
{
    crate::world::lemma_untouched(time, lead);
    crate::world::lemma_timely_history(crate::world::untouched(time), events, lead);
    let world = crate::world::history(crate::world::untouched(time), events);
    if world.owner != Some(a) {
        assert(world.guards.contains_key(a) ==> !world.in_use(a, now_a));
    } else {
        assert(world.guards.contains_key(b) ==> !world.in_use(b, now_b));
    }
}

/// Fencing tokens increase: of any two acquisitions of one lease, the later has
/// the greater token, whatever comes late or gets lost.
pub proof fn law_fencing_tokens_increase(time: int, events: Seq<Event>, i: int, j: int)
    requires
        crate::world::possible(crate::world::untouched(time), events),
        0 <= i < j < crate::world::history(crate::world::untouched(time), events).order.len(),
    ensures
        ({
            let world = crate::world::history(crate::world::untouched(time), events);
            world.guards[world.order[i]].fence_token < world.guards[world.order[j]].fence_token
        }),
{
    crate::world::lemma_untouched(time, 0);
    crate::world::lemma_history(crate::world::untouched(time), events);
}

/// A fencing token exceeds every epoch stored before: a guard that is handed out
/// for the claim at `k` has, ever after, a token greater than the epoch of each
/// record that was written until then, be it by a claim, a heartbeat or a
/// release.
pub proof fn law_fencing_token_exceeds_earlier_epochs(
    time: int,
    events: Seq<Event>,
    k: int,
    id: nat,
    version: Seq<char>,
)
    requires
        crate::world::possible(crate::world::untouched(time), events),
        0 <= k < events.len(),
        events[k] matches Event::Claim { id: claimed, contender, seen, fresh, answered } && claimed
            == id && answered && crate::world::history(
            crate::world::untouched(time),
            events.take(k),
        ).slot.admits(crate::model::demand(seen)),
        crate::world::history(
            crate::world::untouched(time),
            events.take(k),
        ).slot.issued.contains_key(version),
    ensures
        ({
            let before = crate::world::history(crate::world::untouched(time), events.take(k));
            let then = crate::world::history(crate::world::untouched(time), events);
            &&& then.guards.contains_key(id)
            &&& before.slot.issued[version].epoch < then.guards[id].fence_token
        }),
    decreases events.len(),
{
    let start = crate::world::untouched(time);
    let earlier = events.drop_last();
    crate::world::lemma_untouched(time, 0);
    crate::world::lemma_earlier(start, events);
    if k < earlier.len() {
        assert(earlier.take(k) =~= events.take(k));
        assert(earlier[k] == events[k]);
        law_fencing_token_exceeds_earlier_epochs(time, earlier, k, id, version);
    } else {
        assert(earlier =~= events.take(k));
        crate::world::lemma_history(start, earlier);
        let before = crate::world::history(start, earlier);
        match events.last() {
            Event::Claim { id: claimed, contender, seen, fresh, answered } => {
                let (current, record) = before.slot.object->0;
                assert(seen == Some((current, record)));
            },
            _ => {},
        }
    }
}

/// Whether an event is a claim that is answered, or time passing.
pub open spec fn claims_or_passes(event: Event) -> bool {
    match event {
        Event::Passes { until } => true,
        Event::Claim { id, contender, seen, fresh, answered } => answered,
        _ => false,
    }
}

/// Whether the contenders of a series of claims all read their clocks before the
/// lease of any of them could be taken over.
pub open spec fn within_ttl(events: Seq<Event>) -> bool {
    forall|i: int, j: int|
        #![trigger events[i], events[j]]
        0 <= i < events.len() && 0 <= j < events.len() ==> (events[i] matches Event::Claim {
            id,
            contender,
            seen,
            fresh,
            answered,
        } ==> (events[j] matches Event::Claim {
            id: other,
            contender: rival,
            seen: read,
            fresh: version,
            answered: told,
        } ==> rival.now < contender.now + contender.ttl + crate::lease::skew_tolerance()))
}

/// Exactly one of many contenders wins: of any number of claims of a lease that
/// no one has ever held, by contenders that read their clocks before any of their
/// leases could be taken over, exactly one is written and gives a guard, and it
/// is that of the first claim to reach the store.
pub proof fn law_exactly_one_contender_wins(time: int, events: Seq<Event>, first: int)
    requires
        crate::world::possible(crate::world::untouched(time), events),
        forall|i: int| 0 <= i < events.len() ==> claims_or_passes(#[trigger] events[i]),
        within_ttl(events),
        0 <= first < events.len(),
        events[first] is Claim,
        forall|i: int| 0 <= i < first ==> (#[trigger] events[i]) is Passes,
    ensures
        ({
            let world = crate::world::history(crate::world::untouched(time), events);
            &&& world.order.len() == 1
            &&& world.order[0] == events[first]->Claim_id
            &&& world.guards.dom() =~= set![events[first]->Claim_id]
            &&& world.owner == Some(events[first]->Claim_id)
        }),
{
    lemma_one_claim(time, events, first);
}

proof fn lemma_one_claim(time: int, events: Seq<Event>, first: int)
    requires
        crate::world::possible(crate::world::untouched(time), events),
        forall|i: int| 0 <= i < events.len() ==> claims_or_passes(#[trigger] events[i]),
        within_ttl(events),
        0 <= first,
        first < events.len() ==> events[first] is Claim,
        forall|i: int| 0 <= i < first && i < events.len() ==> (#[trigger] events[i]) is Passes,
    ensures
        ({
            let world = crate::world::history(crate::world::untouched(time), events);
            if events.len() <= first {
                &&& world.slot == Slot::<LeaseView>::absent()
                &&& world.guards == Map::<nat, GuardView>::empty()
                &&& world.order == Seq::<nat>::empty()
                &&& world.owner is None
            } else {
                &&& world.order == seq![events[first]->Claim_id]
                &&& world.guards.dom() =~= set![events[first]->Claim_id]
                &&& world.owner == Some(events[first]->Claim_id)
                &&& world.slot.object matches Some((version, record))
                &&& world.slot.issued =~= Map::empty().insert(version, record)
                &&& record.runs_out() == events[first]->contender.now
                    + events[first]->contender.ttl
            }
        }),
    decreases events.len(),
{
    let start = crate::world::untouched(time);
    if events.len() > 0 {
        let earlier = events.drop_last();
        let last = events.len() - 1;
        crate::world::lemma_earlier(start, events);
        assert forall|i: int| 0 <= i < earlier.len() implies claims_or_passes(
            #[trigger] earlier[i],
        ) by {
            assert(events[i] == earlier[i]);
        }
        assert forall|i: int| 0 <= i < first && i < earlier.len() implies (
        #[trigger] earlier[i]) is Passes by {
            assert(events[i] == earlier[i]);
        }
        assert(within_ttl(earlier)) by {
            assert forall|i: int| 0 <= i < earlier.len() implies #[trigger] earlier[i]
                == events[i] by {}
        }
        lemma_one_claim(time, earlier, first);
        assert(claims_or_passes(events[last]));
        let before = crate::world::history(start, earlier);
        if last < first {
            assert(events[last] is Passes);
        } else if last > first {
            assert(events[first] == earlier[first]);
            let (version, record) = before.slot.object->0;
            match events[last] {
                Event::Claim { id, contender, seen, fresh, answered } => {
                    assert(before.allows(events[last]));
                    assert(contender.now < events[first]->contender.now
                        + events[first]->contender.ttl + crate::lease::skew_tolerance()) by {
                        assert(events[first] is Claim);
                    }
                    if before.slot.admits(crate::model::demand(seen)) {
                        assert(seen == Some((version, record)));
                        assert(record.expired(contender.now));
                    }
                },
                _ => {},
            }
        } else {
            match events[last] {
                Event::Claim { id, contender, seen, fresh, answered } => {
                    assert(before.slot.issued == Map::<Seq<char>, LeaseView>::empty());
                    assert(seen is None);
                    let world = crate::world::history(start, events);
                    assert(world.order =~= seq![id]);
                },
                _ => {},
            }
        }
    }
}

/// A fencing token is stable: nothing that happens to a lease changes the token
/// of a guard that was handed out.
pub proof fn law_fencing_token_is_stable(world: World, events: Seq<Event>, id: nat)
    requires
        crate::world::possible(world, events),
        world.guards.contains_key(id),
    ensures
        crate::world::history(world, events).guards.contains_key(id),
        crate::world::history(world, events).guards[id].fence_token
            == world.guards[id].fence_token,
    decreases events.len(),
{
    if events.len() > 0 {
        crate::world::lemma_earlier(world, events);
        law_fencing_token_is_stable(world, events.drop_last(), id);
    }
}

/// A lost lease stays lost: once a guard has lost the lease it never has it
/// again, whatever it sends and whatever answers still reach it.
pub proof fn law_stale_guard_stays_stale(world: World, events: Seq<Event>, id: nat)
    requires
        world.consistent(),
        crate::world::possible(world, events),
        world.guards.contains_key(id),
        world.stale(id),
    ensures
        crate::world::history(world, events).guards.contains_key(id),
        crate::world::history(world, events).stale(id),
    decreases events.len(),
{
    if events.len() > 0 {
        let earlier = events.drop_last();
        crate::world::lemma_earlier(world, events);
        law_stale_guard_stays_stale(world, earlier, id);
        crate::world::lemma_history(world, earlier);
        let before = crate::world::history(world, earlier);
        assert(before.slot.issued.contains_key(before.guards[id].version));
        match events.last() {
            Event::Arrives { request, fresh, answered } => {
                assert(before.requests.contains(request));
            },
            _ => {},
        }
    }
}

/// A stale guard changes nothing: none of its heartbeats, however late it
/// arrives, touches the record of whoever holds the lease by now, nor does the
/// release that it asks for.
pub proof fn law_stale_guard_changes_nothing(
    world: World,
    request: Request,
    fresh: Seq<char>,
    answered: bool,
)
    requires
        world.consistent(),
        world.requests.contains(request),
        world.slot.version() != Some(world.guards[request.id].version),
    ensures
        ({
            let next = world.after(Event::Arrives { request, fresh, answered });
            next.slot == world.slot && next.owner == world.owner
        }),
{
}

/// A release ends no lease but its own: one that is written replaces the record
/// of the very guard that is being given up.
pub proof fn law_release_ends_only_its_own(time: int, events: Seq<Event>, request: Request)
    requires
        crate::world::possible(crate::world::untouched(time), events),
        crate::world::history(crate::world::untouched(time), events).requests.contains(request),
        !request.record.is_live(),
        crate::world::history(crate::world::untouched(time), events).slot.admits(
            Some(request.version),
        ),
    ensures
        ({
            let world = crate::world::history(crate::world::untouched(time), events);
            world.owner == Some(request.id) && world.guards[request.id].released
        }),
{
    crate::world::lemma_untouched(time, 0);
    crate::world::lemma_history(crate::world::untouched(time), events);
}

/// A lost lease is noticed: the heartbeat of a guard that is no longer at the
/// current version never succeeds, and a store that answers it at all reports
/// the loss. Its release does not fail on that: it succeeds at once where no
/// heartbeat is in doubt, and otherwise reads the record.
pub proof fn law_lost_lease_is_noticed(
    slot: Slot<LeaseView>,
    guard: GuardView,
    fresh: Seq<char>,
    reply: Result<ObjectMeta, StoreError>,
)
    requires
        slot.version() != Some(guard.version),
        slot.can_answer(Some(guard.version), fresh, reply),
    ensures
        crate::guard::heartbeat_outcome(reply) is Err,
        reply is Err && reply->Err_0 is PreconditionFailed ==> {
            &&& crate::guard::heartbeat_outcome(reply) == Err::<(), CoordError>(
                CoordError::LeaseLost,
            )
            &&& guard.release_under_way().answered(reply) == if guard.doubtful.len() == 0 {
                Some(Ok::<(), CoordError>(()))
            } else {
                None
            }
        },
{
}

/// Giving a lease up frees it: once a release is written, any contender whose
/// clock is past the Unix epoch by the skew tolerance may claim the lease from
/// what it reads, with the next epoch, and its write is made if nothing comes in
/// between.
pub proof fn law_release_frees(
    world: World,
    id: nat,
    version: Seq<char>,
    fresh: Seq<char>,
    answered: bool,
    now: int,
)
    requires
        world.slot.admits(Some(version)),
        now >= crate::lease::skew_tolerance(),
    ensures
        ({
            let request = Request { id, version, record: world.guards[id].release_record() };
            let released = world.after(Event::Arrives { request, fresh, answered }).slot;
            &&& crate::acquire::claim_epoch(released.value(), now) == Some(
                world.guards[id].epoch + 1,
            )
            &&& released.admits(crate::model::demand(released.object))
        }),
{
}

/// A heartbeat keeps the lease: after one that was written at `now` for `ttl`, a
/// contender leaves the lease alone for as long as its clock has not passed the
/// new expiry by the skew tolerance, and not one moment longer.
pub proof fn law_heartbeat_keeps_lease(
    world: World,
    id: nat,
    now: int,
    ttl: int,
    fresh: Seq<char>,
    answered: bool,
    contender_now: int,
)
    requires
        world.slot.version() == Some(world.guards[id].version),
    ensures
        ({
            let guard = world.guards[id];
            let record = guard.heartbeat_record(now, ttl);
            let request = Request { id, version: guard.version, record };
            let next = world.after(Event::Arrives { request, fresh, answered });
            crate::acquire::claim_epoch(next.slot.value(), contender_now) is None <==> contender_now
                < now + ttl + crate::lease::skew_tolerance()
        }),
{
}

/// A release is confirmed by the store's answer: if it returns `Ok(())` on that,
/// the stored record is none that this guard wrote as a live one, and never will
/// be again, whatever the guard has sent and still arrives late. If it has to
/// read the record again, no heartbeat that the guard has sent can be written
/// any more.
pub proof fn law_release_confirmed(
    world: World,
    id: nat,
    fresh: Seq<char>,
    reply: Result<ObjectMeta, StoreError>,
    later: Seq<Event>,
)
    requires
        world.consistent(),
        world.attributed(),
        world.guards.contains_key(id),
        world.requests.contains(
            Request {
                id,
                version: world.guards[id].version,
                record: world.guards[id].release_record(),
            },
        ),
        world.slot.is_fresh(fresh),
        world.slot.can_answer(Some(world.guards[id].version), fresh, reply),
        ({
            let version = world.guards[id].version;
            let request = Request { id, version, record: world.guards[id].release_record() };
            let next = world.after(Event::Arrives { request, fresh, answered: true });
            crate::world::possible(next, later)
        }),
        crate::world::unanswered(later, id),
    ensures
        ({
            let version = world.guards[id].version;
            let request = Request { id, version, record: world.guards[id].release_record() };
            let next = world.after(Event::Arrives { request, fresh, answered: true });
            match world.guards[id].release_under_way().answered(reply) {
                Some(Ok(_)) => !next.in_name_of(id) && !crate::world::history(
                    next,
                    later,
                ).in_name_of(id),
                Some(Err(_)) => true,
                None => next.adrift(id) && next.guards[id] == world.guards[id],
            }
        }),
{
    let version = world.guards[id].version;
    let request = Request { id, version, record: world.guards[id].release_record() };
    let arrives = Event::Arrives { request, fresh, answered: true };
    let next = world.after(arrives);
    crate::world::law_events_keep_consistency(world, arrives);
    crate::world::law_events_keep_attribution(world, arrives);
    assert(world.slot.issued.contains_key(version));
    if world.guards[id].release_under_way().answered(reply) == Some(Ok::<(), CoordError>(())) {
        assert(!next.in_name_of(id)) by {
            if next.in_name_of(id) {
                assert(world.in_name_of(id));
            }
        }
        crate::world::lemma_adrift(next, later, id);
    }
}

/// A release that is not answered is not confirmed: whether or not its write
/// reached the store, if the store's answer leaves open whether it was made, the
/// release fails with that very error, whatever is in doubt. So if it returns
/// `Ok(())` on the answer, the write has arrived, or was told to be refused or
/// the lease to be gone; and the record that is left is none that this guard
/// wrote as a live one.
pub proof fn law_unanswered_release_is_not_confirmed(
    world: World,
    id: nat,
    fresh: Seq<char>,
    arrived: bool,
    reply: Result<ObjectMeta, StoreError>,
)
    requires
        world.consistent(),
        world.attributed(),
        world.guards.contains_key(id),
        world.requests.contains(
            Request {
                id,
                version: world.guards[id].version,
                record: world.guards[id].release_record(),
            },
        ),
        world.slot.is_fresh(fresh),
        if arrived {
            world.slot.can_answer(Some(world.guards[id].version), fresh, reply)
        } else {
            reply matches Err(error) && (error is Retryable || error is Other)
        },
    ensures
        ({
            let version = world.guards[id].version;
            let request = Request { id, version, record: world.guards[id].release_record() };
            let next = if arrived {
                world.after(Event::Arrives { request, fresh, answered: true })
            } else {
                world
            };
            let outcome = world.guards[id].release_under_way().answered(reply);
            &&& outcome == Some(Ok::<(), CoordError>(())) ==> arrived && !next.in_name_of(id)
            &&& reply matches Err(error) ==> (error is Retryable || error is Other ==> outcome
                == Some(Err::<(), CoordError>(CoordError::Store(error))))
        }),
{
    if arrived {
        law_release_confirmed(world, id, fresh, reply, Seq::empty());
    }
}

/// Whether a store whose object holds leases in the form that `encode` gives them
/// answers a read with `reply`.
pub open spec fn shows<E: FnOnce(&Lease) -> Vec<u8>>(
    slot: Slot<LeaseView>,
    encode: E,
    reply: Option<(ObjectMeta, Vec<u8>)>,
) -> bool {
    match reply {
        None => slot.object is None,
        Some((meta, body)) => {
            &&& slot.object matches Some((version, record))
            &&& meta.version@ == version
            &&& exists|lease: Lease|
                #![trigger encode.ensures((&lease,), body)]
                lease@ == record && encode.ensures((&lease,), body)
        },
    }
}

/// A release that had to read the record is confirmed by what it read: if it
/// returns `Ok(())` on that, then the stored record is none that this guard wrote
/// as a live one, or it had run out by the holder's clock; and what was not in
/// the guard's name then never will be again. If it fails, the stored record is
/// the same in every field as one that the guard has in doubt, and has not run
/// out. This is of a `decode` that undoes `encode`.
pub proof fn law_reread_release_confirmed<D, E>(
    world: World,
    id: nat,
    refusal: StoreError,
    between: Seq<Event>,
    encode: E,
    decode: D,
    reply: Option<(ObjectMeta, Vec<u8>)>,
    current: Result<Option<(ObjectMeta, Lease)>, CoordError>,
    now: int,
    later: Seq<Event>,
) where D: FnOnce(Vec<u8>) -> Result<Lease, prost::DecodeError>, E: FnOnce(&Lease) -> Vec<u8>
    requires
        world.consistent(),
        world.attributed(),
        world.adrift(id),
        crate::world::possible(world, between),
        crate::world::unanswered(between, id),
        shows(crate::world::history(world, between).slot, encode, reply),
        crate::message::fetched(Ok(reply), decode, current),
        forall|lease: Lease, body: Vec<u8>, decoded: Result<Lease, prost::DecodeError>|
            #![trigger encode.ensures((&lease,), body), decode.ensures((body,), decoded)]
            encode.ensures((&lease,), body) && decode.ensures((body,), decoded) ==> decoded is Ok
                && decoded->Ok_0@ == lease@,
        crate::world::possible(crate::world::history(world, between), later),
        crate::world::unanswered(later, id),
    ensures
        ({
            let release = world.guards[id].release_under_way();
            let then = crate::world::history(world, between);
            match release.reread(refusal, current, now) {
                Some(Ok(_)) => {
                    &&& then.in_name_of(id) ==> then.slot.value()->0.runs_out() <= now
                    &&& !then.in_name_of(id) ==> !crate::world::history(then, later).in_name_of(id)
                },
                Some(Err(error)) => {
                    &&& error == CoordError::Store(refusal)
                    &&& then.slot.object is Some
                    &&& world.guards[id].doubts(then.slot.value()->0)
                    &&& now < then.slot.value()->0.runs_out()
                },
                None => false,
            }
        }),
{
    let then = crate::world::history(world, between);
    crate::world::lemma_attributed_history(world, between);
    crate::world::lemma_adrift(world, between, id);
    crate::world::lemma_adrift(then, later, id);
    if then.in_name_of(id) {
        assert(world.guards[id].doubts(world.slot.value()->0));
    }
    if let Some((meta, body)) = reply {
        let record = then.slot.value()->0;
        let lease = choose|lease: Lease|
            #![trigger encode.ensures((&lease,), body)]
            lease@ == record && encode.ensures((&lease,), body);
        assert(encode.ensures((&lease,), body));
        assert(current is Ok && current->Ok_0 is Some);
        assert(shown_lease(current->Ok_0) == Some((meta.version@, record)));
    }
}

/// A release of a lease that someone else holds succeeds: whatever is in doubt,
/// and whatever the clock reads, if the record read is of another holder than
/// the guard's, the release returns `Ok(())`; and so it does if the lease is
/// gone, or what is stored is no lease.
pub proof fn law_release_of_a_stolen_lease_succeeds(
    guard: GuardView,
    refusal: StoreError,
    current: Result<Option<(ObjectMeta, Lease)>, CoordError>,
    now: int,
)
    requires
        guard.doubts_its_own(),
        match current {
            Ok(Some((_, lease))) => lease@.holder != guard.holder,
            Ok(None) => true,
            Err(error) => error is Decode,
        },
    ensures
        guard.release_under_way().reread(refusal, current, now) == Some(Ok::<(), CoordError>(())),
{
    if let Ok(Some((_, lease))) = current {
        if guard.release_under_way().doubts(lease@) {
            assert(guard.doubts(lease@));
        }
    }
}

/// A guard doubts only its own: a guard that is handed out has nothing in doubt,
/// and neither heartbeats, whatever becomes of them, nor giving the lease up
/// bring anyone else's record into doubt.
pub proof fn law_doubts_stay_its_own(
    guard: GuardView,
    now: int,
    ttl: int,
    reply: Result<ObjectMeta, StoreError>,
)
    requires
        guard.doubts_its_own(),
    ensures
        guard.heartbeat_sent(now, ttl).doubts_its_own(),
        guard.after_heartbeat(now, ttl, reply).doubts_its_own(),
        guard.given_up().doubts_its_own(),
{
    let sent = guard.heartbeat_sent(now, ttl);
    let after = guard.after_heartbeat(now, ttl, reply);
    assert forall|record: LeaseView| #[trigger] sent.doubts(record) implies record.holder
        == guard.holder && record.is_live() by {
        let i = choose|i: int| 0 <= i < sent.doubtful.len() && sent.doubtful[i] == record;
        if i < guard.doubtful.len() {
            assert(guard.doubtful[i] == record);
            assert(guard.doubts(record));
        }
    }
    assert forall|record: LeaseView| #[trigger] after.doubts(record) implies record.holder
        == guard.holder && record.is_live() by {
        let i = choose|i: int| 0 <= i < after.doubtful.len() && after.doubtful[i] == record;
        assert(sent.doubtful[i] == record);
        assert(sent.doubts(record));
    }
    assert forall|record: LeaseView| #[trigger] guard.given_up().doubts(record) implies record.holder
        == guard.holder && record.is_live() by {
        assert(guard.doubts(record));
    }
}

} // verus!
