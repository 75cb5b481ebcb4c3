//! A world with one lease and everyone who ever held it, in which claims,
//! heartbeats and releases interleave at will, requests and answers come late or
//! get lost, and clocks differ; and what everything that happens in it keeps.

use vstd::prelude::*;

use crate::acquire::ContenderView;
use crate::guard::{GuardView, HeartbeatView};
use crate::lease::LeaseView;
use crate::model::Slot;

verus! {

/// A write that a guard has asked for and that has not reached the store: a
/// heartbeat where the record is live, a release where it is not.
pub struct Request {
    /// The guard that asked for it.
    pub id: nat,
    /// The version it is to replace.
    pub version: Seq<char>,
    /// What it writes.
    pub record: LeaseView,
}

/// The answer to a heartbeat that has been written, on its way to the sender.
pub struct InFlight {
    /// The version that the heartbeat was written as.
    pub version: Seq<char>,
    /// When the lease runs out by it.
    pub expires_at: int,
}

/// One lease and everyone who ever held it.
pub struct World {
    /// The lease record in the store.
    pub slot: Slot<LeaseView>,
    /// Every guard ever handed out.
    pub guards: Map<nat, GuardView>,
    /// The writes on their way to the store. They may arrive in any order, late,
    /// or never.
    pub requests: Set<Request>,
    /// The answers on their way to guards whose heartbeat was written. They may
    /// arrive late or never.
    pub answers: Map<nat, InFlight>,
    /// The guards in the order in which they were acquired.
    pub order: Seq<nat>,
    /// The guard that the current record was written by or for, if any.
    pub owner: Option<nat>,
    /// Who wrote each version with a live record.
    pub authors: Map<Seq<char>, nat>,
    /// The true time, which clocks read more or less exactly.
    pub time: int,
}

/// Something that happens in the world.
pub enum Event {
    /// Time passes.
    Passes { until: int },
    /// A claim by a contender that read `seen` reaches the store. If it is
    /// written and ever `answered`, the guard `id` is handed out; it counts from
    /// the write on, even where its holder learns of it later. A claim that
    /// never reaches the store is no event.
    Claim {
        id: nat,
        contender: ContenderView,
        seen: Option<(Seq<char>, LeaseView)>,
        fresh: Seq<char>,
        answered: bool,
    },
    /// The guard `id` sends a heartbeat.
    Heartbeat { id: nat, now: int, ttl: int },
    /// The guard `id` gives the lease up, or marks it as lost.
    Release { id: nat },
    /// A write reaches the store, which may or may not answer it at once. If a
    /// heartbeat is written and not answered at once, the answer is on its way.
    Arrives { request: Request, fresh: Seq<char>, answered: bool },
    /// The answer that was on its way to the guard `id` arrives.
    Answer { id: nat },
}

/// A lease that no one has ever held.
pub open spec fn untouched(time: int) -> World {
    World {
        slot: Slot::absent(),
        guards: Map::empty(),
        requests: Set::empty(),
        answers: Map::empty(),
        order: Seq::empty(),
        owner: None,
        authors: Map::empty(),
        time,
    }
}

/// The record that a contender read.
pub open spec fn read_record(seen: Option<(Seq<char>, LeaseView)>) -> Option<LeaseView> {
    match seen {
        None => None,
        Some((_, record)) => Some(record),
    }
}

impl Request {
    /// The heartbeat that the request sends, as its sender knows it.
    pub open spec fn heartbeat(self) -> HeartbeatView {
        HeartbeatView { expires_at: self.record.runs_out(), epoch: self.record.epoch }
    }
}

impl World {
    /// Whether an event can happen: versions are fresh, reads are of something
    /// that was there, and a contender claims only what it may.
    pub open spec fn allows(self, event: Event) -> bool {
        match event {
            Event::Passes { until } => until >= self.time,
            Event::Claim { id, contender, seen, fresh, answered } => {
                &&& !self.guards.contains_key(id)
                &&& self.slot.has_shown(seen)
                &&& self.slot.is_fresh(fresh)
                &&& crate::acquire::claim_epoch(read_record(seen), contender.now) is Some
            },
            Event::Heartbeat { id, now, ttl } => self.guards.contains_key(id),
            Event::Release { id } => self.guards.contains_key(id),
            Event::Arrives { request, fresh, answered } => {
                &&& self.requests.contains(request)
                &&& self.slot.is_fresh(fresh)
            },
            Event::Answer { id } => self.answers.contains_key(id),
        }
    }

    /// Whether an event goes by a sound clock: a contender's reads no more than
    /// `lead` ahead of the true time, and a heartbeat that is written without
    /// its sender learning of it at once does not cut the lease short.
    pub open spec fn timely(self, event: Event, lead: int) -> bool {
        match event {
            Event::Claim { id, contender, seen, fresh, answered } => contender.now <= self.time
                + lead,
            Event::Arrives { request, fresh, answered } => request.record.is_live()
                && self.slot.admits(Some(request.version)) && !answered
                ==> request.record.runs_out() >= self.guards[request.id].expires_at,
            _ => true,
        }
    }

    /// The world after an event.
    pub open spec fn after(self, event: Event) -> World {
        match event {
            Event::Passes { until } => World { time: until, ..self },
            Event::Claim { id, contender, seen, fresh, answered } => {
                let mode = crate::model::demand(seen);
                let epoch = crate::acquire::claim_epoch(read_record(seen), contender.now)->0;
                let record = contender.claim_record(epoch);
                let slot = self.slot.put(mode, record, fresh);
                let authors = self.authors.insert(fresh, id);
                if !self.slot.admits(mode) {
                    self
                } else if answered {
                    World {
                        slot,
                        guards: self.guards.insert(id, contender.claimed(fresh, epoch)),
                        order: self.order.push(id),
                        owner: Some(id),
                        authors,
                        ..self
                    }
                } else {
                    World { slot, owner: None, authors, ..self }
                }
            },
            Event::Heartbeat { id, now, ttl } => {
                let guard = self.guards[id];
                let record = guard.heartbeat_record(now, ttl);
                World {
                    guards: self.guards.insert(id, guard.heartbeat_sent(now, ttl)),
                    requests: self.requests.insert(
                        Request { id, version: guard.version, record },
                    ),
                    answers: self.answers.remove(id),
                    ..self
                }
            },
            Event::Release { id } => {
                let guard = self.guards[id];
                World {
                    guards: self.guards.insert(id, guard.given_up()),
                    requests: self.requests.insert(
                        Request { id, version: guard.version, record: guard.release_record() },
                    ),
                    answers: self.answers.remove(id),
                    ..self
                }
            },
            Event::Arrives { request, fresh, answered } => {
                let mode = Some(request.version);
                let written = self.slot.admits(mode);
                let live = request.record.is_live();
                let guard = self.guards[request.id];
                let expires_at = request.record.runs_out();
                World {
                    slot: self.slot.put(mode, request.record, fresh),
                    guards: if live && answered {
                        self.guards.insert(
                            request.id,
                            if written {
                                guard.heartbeat_written(fresh, expires_at)
                            } else {
                                guard.heartbeat_refused(request.record.epoch)
                            },
                        )
                    } else {
                        self.guards
                    },
                    requests: self.requests.remove(request),
                    answers: if live && written && !answered {
                        self.answers.insert(request.id, InFlight { version: fresh, expires_at })
                    } else {
                        self.answers
                    },
                    owner: if written && !live {
                        None
                    } else {
                        self.owner
                    },
                    authors: if written && live {
                        self.authors.insert(fresh, request.id)
                    } else {
                        self.authors
                    },
                    ..self
                }
            },
            Event::Answer { id } => {
                let answer = self.answers[id];
                let guard = self.guards[id].heartbeat_written(answer.version, answer.expires_at);
                World {
                    guards: self.guards.insert(id, guard),
                    answers: self.answers.remove(id),
                    ..self
                }
            },
        }
    }

    /// Every guard is at a version that was given out, at or past the epoch of
    /// the record written under it, with its token no later than that record.
    pub open spec fn guards_on_record(self) -> bool {
        forall|id: nat| #[trigger]
            self.guards.contains_key(id) ==> {
                let guard = self.guards[id];
                &&& self.slot.issued.contains_key(guard.version)
                &&& guard.fence_token <= self.slot.issued[guard.version].epoch <= guard.epoch
            }
    }

    /// What a guard has in doubt is its holder's, live, with an epoch it has
    /// reached.
    pub open spec fn doubts_on_record(self) -> bool {
        forall|id: nat, record: LeaseView|
            self.guards.contains_key(id) && #[trigger] self.guards[id].doubts(record) ==> {
                &&& record.holder == self.guards[id].holder
                &&& record.is_live()
                &&& record.epoch <= self.guards[id].epoch
            }
    }

    /// Every answer on its way is to a guard that is not at the current version,
    /// and tells of a record between the guard's token and its epoch.
    pub open spec fn answers_on_record(self) -> bool {
        forall|id: nat| #[trigger]
            self.answers.contains_key(id) ==> {
                let answer = self.answers[id];
                &&& self.guards.contains_key(id)
                &&& self.slot.version() != Some(self.guards[id].version)
                &&& self.slot.issued.contains_key(answer.version)
                &&& self.guards[id].fence_token <= self.slot.issued[answer.version].epoch
                    <= self.guards[id].epoch
            }
    }

    /// Every write on its way is a guard's, no earlier than what it is to
    /// replace, and can be made only while its guard is at the current version. A
    /// release is of a guard that was given up, and no guard sends two
    /// heartbeats with one epoch.
    pub open spec fn requests_on_record(self) -> bool {
        &&& forall|request: Request| #[trigger]
            self.requests.contains(request) ==> {
                let guard = self.guards[request.id];
                &&& self.guards.contains_key(request.id)
                &&& self.slot.issued.contains_key(request.version)
                &&& self.slot.issued[request.version].epoch <= request.record.epoch <= guard.epoch
                &&& request.record.is_live() ==> guard.fence_token <= request.record.epoch
                &&& self.slot.version() == Some(request.version) ==> {
                    &&& guard.version == request.version
                    &&& !request.record.is_live() ==> guard.released
                }
            }
        &&& forall|a: Request, b: Request|
            #![trigger self.requests.contains(a), self.requests.contains(b)]
            self.requests.contains(a) && self.requests.contains(b) && a.record.is_live()
                && b.record.is_live() && a.id == b.id && a.record.epoch == b.record.epoch ==> a == b
    }

    /// No record ever had a later epoch than the current one.
    pub open spec fn epochs_advance(self) -> bool {
        self.slot.object matches Some((_, record)) ==> forall|version: Seq<char>| #[trigger]
            self.slot.issued.contains_key(version) ==> self.slot.issued[version].epoch
                <= record.epoch
    }

    /// The guards in order of acquisition are all the guards, and their tokens
    /// increase.
    pub open spec fn tokens_increase(self) -> bool {
        &&& forall|i: int|
            0 <= i < self.order.len() ==> self.guards.contains_key(#[trigger] self.order[i])
        &&& forall|i: int, j: int|
            0 <= i < j < self.order.len() ==> self.guards[#[trigger] self.order[i]].fence_token
                < self.guards[#[trigger] self.order[j]].fence_token
        &&& forall|id: nat| #[trigger] self.guards.contains_key(id) ==> self.order.contains(id)
    }

    /// Only the owner is at the current version, or about to learn of it.
    pub open spec fn owner_is_current(self) -> bool {
        &&& self.owner matches Some(id) ==> self.guards.contains_key(id) && self.slot.object is Some
        &&& forall|id: nat| #[trigger]
            self.guards.contains_key(id) && self.slot.version() == Some(self.guards[id].version)
                ==> self.owner == Some(id)
        &&& forall|id: nat| #[trigger]
            self.answers.contains_key(id) && self.slot.version() == Some(self.answers[id].version)
                ==> self.owner == Some(id)
    }

    /// What every event keeps.
    pub open spec fn consistent(self) -> bool {
        &&& self.slot.valid()
        &&& self.guards_on_record()
        &&& self.doubts_on_record()
        &&& self.answers_on_record()
        &&& self.requests_on_record()
        &&& self.epochs_advance()
        &&& self.tokens_increase()
        &&& self.owner_is_current()
    }

    /// Every version with a live record is known by who wrote it. Its epoch is
    /// one that its author has reached, and not that of a heartbeat which its
    /// author has on its way.
    pub open spec fn authors_known(self) -> bool {
        &&& forall|version: Seq<char>| #[trigger]
            self.slot.issued.contains_key(version) && self.slot.issued[version].is_live() ==> {
                let id = self.authors[version];
                &&& self.authors.contains_key(version)
                &&& self.guards.contains_key(id) ==> self.slot.issued[version].epoch
                    <= self.guards[id].epoch
            }
        &&& forall|version: Seq<char>, request: Request|
            #![trigger self.slot.issued.contains_key(version), self.requests.contains(request)]
            self.slot.issued.contains_key(version) && self.slot.issued[version].is_live()
                && self.requests.contains(request) && request.record.is_live()
                && self.authors[version] == request.id ==> self.slot.issued[version].epoch
                != request.record.epoch
    }

    /// Whether the current record is one that the guard `id` wrote as a live one.
    pub open spec fn in_name_of(self, id: nat) -> bool {
        &&& self.slot.object matches Some((version, record))
        &&& record.is_live()
        &&& self.authors.contains_pair(version, id)
    }

    /// A guard accounts for what it wrote: while the current record is in its
    /// name it owns the lease, and is at the current version or has the record
    /// in doubt; an answer on its way to it is about that record. A heartbeat
    /// that can still be written is in doubt.
    pub open spec fn accounted_for(self) -> bool {
        &&& forall|id: nat| #[trigger]
            self.guards.contains_key(id) && self.in_name_of(id) ==> {
                &&& self.owner == Some(id)
                &&& self.slot.version() == Some(self.guards[id].version) || self.guards[id].doubts(
                    self.slot.value()->0,
                )
                &&& self.answers.contains_key(id) ==> self.slot.version() == Some(
                    self.answers[id].version,
                )
            }
        &&& forall|request: Request| #[trigger]
            self.requests.contains(request) && request.record.is_live() && self.slot.version()
                == Some(request.version) ==> self.guards[request.id].doubts(request.record)
    }

    /// What every event keeps besides: records are attributed to their authors.
    pub open spec fn attributed(self) -> bool {
        &&& self.authors_known()
        &&& self.accounted_for()
    }

    /// What every timely event keeps besides: the owner believes the lease good
    /// for no longer than the record says, and whoever does not own it has given
    /// it up or has seen it expire with the clock-skew grace on top. No answer on
    /// its way changes that.
    pub open spec fn handed_over(self, lead: int) -> bool {
        &&& self.owner matches Some(id) ==> {
            &&& self.slot.object matches Some((_, record))
            &&& record.runs_out() >= self.guards[id].expires_at
            &&& self.answers.contains_key(id) ==> record.runs_out() >= self.answers[id].expires_at
        }
        &&& forall|id: nat| #[trigger]
            self.guards.contains_key(id) && self.owner != Some(id) ==> self.guards[id].released
                || self.guards[id].expires_at + crate::lease::skew_tolerance() <= self.time + lead
        &&& forall|id: nat| #[trigger]
            self.answers.contains_key(id) && self.owner != Some(id) ==> self.guards[id].released
                || self.answers[id].expires_at + crate::lease::skew_tolerance() <= self.time + lead
    }

    /// Whether the guard `id` has lost the lease: it is not at the current
    /// version, nor about to learn of it.
    pub open spec fn stale(self, id: nat) -> bool {
        &&& self.slot.version() != Some(self.guards[id].version)
        &&& self.answers.contains_key(id) ==> self.slot.version() != Some(self.answers[id].version)
    }

    /// Whether the guard `id` cannot write any more unless an answer reaches it:
    /// it is not at the current version.
    pub open spec fn adrift(self, id: nat) -> bool {
        &&& self.guards.contains_key(id)
        &&& self.slot.version() != Some(self.guards[id].version)
    }

    /// Whether the guard `id` is in use when its holder's clock reads `now`: it
    /// was not given up, and has not run out.
    pub open spec fn in_use(self, id: nat, now: int) -> bool {
        &&& self.guards.contains_key(id)
        &&& !self.guards[id].released
        &&& now < self.guards[id].expires_at
    }
}

/// The world after a series of events.
pub open spec fn history(world: World, events: Seq<Event>) -> World
    decreases events.len(),
{
    if events.len() == 0 {
        world
    } else {
        history(world, events.drop_last()).after(events.last())
    }
}

/// Whether a series of events can happen.
pub open spec fn possible(world: World, events: Seq<Event>) -> bool {
    forall|i: int|
        0 <= i < events.len() ==> #[trigger] history(world, events.take(i)).allows(events[i])
}

/// Whether a series of events goes by sound clocks.
pub open spec fn all_timely(world: World, events: Seq<Event>, lead: int) -> bool {
    forall|i: int|
        0 <= i < events.len() ==> #[trigger] history(world, events.take(i)).timely(events[i], lead)
}

/// What holds of a series of events holds of it without the last.
pub proof fn lemma_earlier(world: World, events: Seq<Event>)
    requires
        events.len() > 0,
    ensures
        possible(world, events) ==> possible(world, events.drop_last()) && history(
            world,
            events.drop_last(),
        ).allows(events.last()),
        forall|lead: int| #[trigger]
            all_timely(world, events, lead) ==> all_timely(world, events.drop_last(), lead)
                && history(world, events.drop_last()).timely(events.last(), lead),
{
    let earlier = events.drop_last();
    assert(earlier =~= events.take(events.len() - 1));
    assert forall|i: int| 0 <= i < earlier.len() implies #[trigger] earlier.take(i) == events.take(
        i,
    ) by {
        assert(earlier.take(i) =~= events.take(i));
    }
    let before = history(world, earlier);
    if possible(world, events) {
        assert(before.allows(events[events.len() - 1]));
        assert forall|i: int| 0 <= i < earlier.len() implies #[trigger] history(
            world,
            earlier.take(i),
        ).allows(earlier[i]) by {
            assert(earlier.take(i) == events.take(i));
        }
    }
    assert forall|lead: int| #[trigger] all_timely(world, events, lead) implies all_timely(
        world,
        earlier,
        lead,
    ) && before.timely(events.last(), lead) by {
        assert(before.timely(events[events.len() - 1], lead));
        assert forall|i: int| 0 <= i < earlier.len() implies #[trigger] history(
            world,
            earlier.take(i),
        ).timely(earlier[i], lead) by {
            assert(earlier.take(i) == events.take(i));
        }
    }
}

proof fn lemma_claim_consistent(world: World, event: Event)
    requires
        world.consistent(),
        world.allows(event),
        event is Claim,
    ensures
        world.after(event).consistent(),
{
    match event {
        Event::Claim { id, contender, seen, fresh, answered } => {
            let mode = crate::model::demand(seen);
            let epoch = crate::acquire::claim_epoch(read_record(seen), contender.now)->0;
            let next = world.after(event);
            crate::model::lemma_put(world.slot, mode, contender.claim_record(epoch), fresh);
            if world.slot.admits(mode) {
                match world.slot.object {
                    None => {
                        assert(world.slot.issued == Map::<Seq<char>, LeaseView>::empty());
                    },
                    Some((version, record)) => {
                        assert(seen == Some((version, record)));
                        assert(epoch == record.epoch + 1);
                    },
                }
                assert(next.guards_on_record());
                assert(next.doubts_on_record());
                assert(next.answers_on_record());
                assert(next.requests_on_record());
                assert(next.epochs_advance());
                assert(next.owner_is_current());
                assert(next.tokens_increase()) by {
                    if answered {
                        assert forall|other: nat| #[trigger]
                            next.guards.contains_key(other) implies next.order.contains(other) by {
                            if other == id {
                                assert(next.order[world.order.len() as int] == id);
                            } else {
                                assert(world.order.contains(other));
                                let i = choose|i: int|
                                    0 <= i < world.order.len() && world.order[i] == other;
                                assert(next.order[i] == other);
                            }
                        }
                        assert forall|i: int, j: int| 0 <= i < j < next.order.len() implies {
                            next.guards[#[trigger] next.order[i]].fence_token
                                < next.guards[#[trigger] next.order[j]].fence_token
                        } by {
                            assert(next.order[i] == world.order[i]);
                            assert(world.guards.contains_key(world.order[i]));
                            if j < world.order.len() {
                                assert(next.order[j] == world.order[j]);
                                assert(world.guards.contains_key(world.order[j]));
                            }
                        }
                    }
                }
            }
        },
        _ => {},
    }
}

proof fn lemma_sending_consistent(world: World, event: Event)
    requires
        world.consistent(),
        world.allows(event),
        event is Heartbeat || event is Release,
    ensures
        world.after(event).consistent(),
{
    let next = world.after(event);
    match event {
        Event::Heartbeat { id, now, ttl } => {
            let guard = world.guards[id];
            let record = guard.heartbeat_record(now, ttl);
            assert forall|other: nat, r: LeaseView|
                next.guards.contains_key(other) && #[trigger] next.guards[other].doubts(r) implies {
                &&& r.holder == next.guards[other].holder
                &&& r.is_live()
                &&& r.epoch <= next.guards[other].epoch
            } by {
                if other == id && r != record {
                    lemma_pushed(guard.doubtful, record, r);
                    assert(guard.doubts(r));
                } else if other != id {
                    assert(world.guards[other].doubts(r));
                }
            }
        },
        Event::Release { id } => {
            assert forall|other: nat, r: LeaseView|
                next.guards.contains_key(other) && #[trigger] next.guards[other].doubts(r) implies {
                &&& r.holder == next.guards[other].holder
                &&& r.is_live()
                &&& r.epoch <= next.guards[other].epoch
            } by {
                assert(world.guards[other].doubts(r));
            }
        },
        _ => {},
    }
    assert(next.guards_on_record());
    assert(next.answers_on_record());
    assert(next.requests_on_record());
    assert(next.epochs_advance());
    assert(next.owner_is_current());
    assert(next.tokens_increase());
}

/// What is in a pushed-on series is what was pushed, or was in it before; and
/// what was in it before still is.
proof fn lemma_pushed(records: Seq<LeaseView>, pushed: LeaseView, record: LeaseView)
    ensures
        records.push(pushed).contains(record) <==> records.contains(record) || record == pushed,
{
    let after = records.push(pushed);
    if records.contains(record) {
        let i = choose|i: int| 0 <= i < records.len() && records[i] == record;
        assert(after[i] == record);
    }
    assert(after[records.len() as int] == pushed);
    if after.contains(record) && record != pushed {
        let i = choose|i: int| 0 <= i < after.len() && after[i] == record;
        assert(records[i] == record);
    }
}

/// What a refusal leaves in doubt was in doubt before, and it leaves everything
/// with another epoch.
proof fn lemma_refused(guard: GuardView, epoch: nat, record: LeaseView)
    ensures
        guard.heartbeat_refused(epoch).doubts(record) ==> guard.doubts(record),
        guard.doubts(record) && record.epoch != epoch ==> guard.heartbeat_refused(epoch).doubts(
            record,
        ),
{
    let after = guard.heartbeat_refused(epoch).doubtful;
    if after.contains(record) {
        let i = choose|i: int| 0 <= i < after.len() && after[i] == record;
        assert(guard.doubtful[i] == record);
    }
    if guard.doubtful.contains(record) && record.epoch != epoch {
        let i = choose|i: int| 0 <= i < guard.doubtful.len() && guard.doubtful[i] == record;
        assert(after[i] == record);
    }
}

proof fn lemma_arriving_consistent(world: World, event: Event)
    requires
        world.consistent(),
        world.allows(event),
        event is Arrives || event is Answer,
    ensures
        world.after(event).consistent(),
{
    let next = world.after(event);
    match event {
        Event::Arrives { request, fresh, answered } => {
            assert(world.requests.contains(request));
            crate::model::lemma_put(
                world.slot,
                Some(request.version),
                request.record,
                fresh,
            );
            assert forall|other: nat, r: LeaseView|
                next.guards.contains_key(other) && #[trigger] next.guards[other].doubts(r) implies {
                &&& r.holder == next.guards[other].holder
                &&& r.is_live()
                &&& r.epoch <= next.guards[other].epoch
            } by {
                lemma_refused(world.guards[other], request.record.epoch, r);
                assert(world.guards[other].doubts(r));
            }
        },
        Event::Answer { id } => {
            assert(world.answers.contains_key(id));
            assert forall|other: nat, r: LeaseView|
                next.guards.contains_key(other) && #[trigger] next.guards[other].doubts(r) implies {
                &&& r.holder == next.guards[other].holder
                &&& r.is_live()
                &&& r.epoch <= next.guards[other].epoch
            } by {
                assert(world.guards[other].doubts(r));
            }
        },
        _ => {},
    }
    assert(next.guards_on_record());
    assert(next.answers_on_record());
    assert(next.requests_on_record());
    assert(next.epochs_advance());
    assert(next.owner_is_current());
    assert(next.tokens_increase());
}

/// Every event that can happen keeps the world consistent.
pub proof fn law_events_keep_consistency(world: World, event: Event)
    requires
        world.consistent(),
        world.allows(event),
    ensures
        world.after(event).consistent(),
{
    match event {
        Event::Passes { until } => {
            let next = world.after(event);
            assert(next.guards_on_record());
            assert(next.doubts_on_record());
            assert(next.requests_on_record());
            assert(next.tokens_increase());
        },
        Event::Claim { id, contender, seen, fresh, answered } => {
            lemma_claim_consistent(world, event);
        },
        Event::Heartbeat { id, now, ttl } => {
            lemma_sending_consistent(world, event);
        },
        Event::Release { id } => {
            lemma_sending_consistent(world, event);
        },
        _ => {
            lemma_arriving_consistent(world, event);
        },
    }
}

proof fn lemma_claim_attributed(world: World, event: Event)
    requires
        world.consistent(),
        world.attributed(),
        world.allows(event),
        event is Claim,
    ensures
        world.after(event).attributed(),
{
    match event {
        Event::Claim { id, contender, seen, fresh, answered } => {
            let epoch = crate::acquire::claim_epoch(read_record(seen), contender.now)->0;
            let record = contender.claim_record(epoch);
            let next = world.after(event);
            if world.slot.admits(crate::model::demand(seen)) {
                match world.slot.object {
                    None => {
                        assert(world.slot.issued == Map::<Seq<char>, LeaseView>::empty());
                    },
                    Some((version, current)) => {
                        assert(seen == Some((version, current)));
                        assert(epoch == current.epoch + 1);
                    },
                }
                assert(next.authors_known());
                assert(next.accounted_for());
            }
        },
        _ => {},
    }
}

proof fn lemma_sending_attributed(world: World, event: Event)
    requires
        world.consistent(),
        world.attributed(),
        world.allows(event),
        event is Heartbeat || event is Release,
    ensures
        world.after(event).attributed(),
{
    let next = world.after(event);
    match event {
        Event::Heartbeat { id, now, ttl } => {
            let guard = world.guards[id];
            let record = guard.heartbeat_record(now, ttl);
            assert forall|r: LeaseView| guard.doubts(r) || r == record implies #[trigger]
                next.guards[id].doubts(r) by {
                lemma_pushed(guard.doubtful, record, r);
            }
            assert forall|other: nat| #[trigger]
                next.guards.contains_key(other) && next.in_name_of(other) implies {
                &&& next.owner == Some(other)
                &&& next.slot.version() == Some(next.guards[other].version)
                    || next.guards[other].doubts(next.slot.value()->0)
                &&& next.answers.contains_key(other) ==> next.slot.version() == Some(
                    next.answers[other].version,
                )
            } by {
                assert(world.in_name_of(other));
            }
        },
        Event::Release { id } => {
            assert forall|other: nat| #[trigger]
                next.guards.contains_key(other) && next.in_name_of(other) implies {
                &&& next.owner == Some(other)
                &&& next.slot.version() == Some(next.guards[other].version)
                    || next.guards[other].doubts(next.slot.value()->0)
                &&& next.answers.contains_key(other) ==> next.slot.version() == Some(
                    next.answers[other].version,
                )
            } by {
                assert(world.in_name_of(other));
            }
        },
        _ => {},
    }
    assert(next.authors_known());
    assert(next.accounted_for());
}

proof fn lemma_arriving_attributed(world: World, event: Event)
    requires
        world.consistent(),
        world.attributed(),
        world.allows(event),
        event is Arrives || event is Answer,
    ensures
        world.after(event).attributed(),
{
    let next = world.after(event);
    match event {
        Event::Arrives { request, fresh, answered } => {
            assert(world.requests.contains(request));
            assert(next.authors_known());
            assert forall|other: nat| #[trigger]
                next.guards.contains_key(other) && next.in_name_of(other) implies {
                &&& next.owner == Some(other)
                &&& next.slot.version() == Some(next.guards[other].version)
                    || next.guards[other].doubts(next.slot.value()->0)
                &&& next.answers.contains_key(other) ==> next.slot.version() == Some(
                    next.answers[other].version,
                )
            } by {
                let (version, current) = next.slot.object->0;
                if !world.slot.admits(Some(request.version)) {
                    assert(world.in_name_of(other));
                    assert(world.slot.issued.contains_key(version));
                    lemma_refused(world.guards[other], request.record.epoch, current);
                }
            }
            assert forall|later: Request| #[trigger]
                next.requests.contains(later) && later.record.is_live() && next.slot.version()
                    == Some(later.version) implies next.guards[later.id].doubts(later.record) by {
                assert(world.requests.contains(later));
                lemma_refused(world.guards[later.id], request.record.epoch, later.record);
            }
        },
        Event::Answer { id } => {
            assert(world.answers.contains_key(id));
            assert(next.authors_known());
            assert forall|other: nat| #[trigger]
                next.guards.contains_key(other) && next.in_name_of(other) implies {
                &&& next.owner == Some(other)
                &&& next.slot.version() == Some(next.guards[other].version)
                    || next.guards[other].doubts(next.slot.value()->0)
                &&& next.answers.contains_key(other) ==> next.slot.version() == Some(
                    next.answers[other].version,
                )
            } by {
                assert(world.in_name_of(other));
            }
        },
        _ => {},
    }
    assert(next.accounted_for());
}

/// Every event that can happen keeps records attributed to their authors.
pub proof fn law_events_keep_attribution(world: World, event: Event)
    requires
        world.consistent(),
        world.attributed(),
        world.allows(event),
    ensures
        world.after(event).attributed(),
{
    match event {
        Event::Passes { until } => {
            let next = world.after(event);
            assert forall|other: nat| #[trigger]
                next.guards.contains_key(other) && next.in_name_of(other) implies {
                &&& next.owner == Some(other)
                &&& next.slot.version() == Some(next.guards[other].version)
                    || next.guards[other].doubts(next.slot.value()->0)
                &&& next.answers.contains_key(other) ==> next.slot.version() == Some(
                    next.answers[other].version,
                )
            } by {
                assert(world.in_name_of(other));
            }
        },
        Event::Claim { id, contender, seen, fresh, answered } => {
            lemma_claim_attributed(world, event);
        },
        Event::Heartbeat { id, now, ttl } => {
            lemma_sending_attributed(world, event);
        },
        Event::Release { id } => {
            lemma_sending_attributed(world, event);
        },
        _ => {
            lemma_arriving_attributed(world, event);
        },
    }
}

proof fn lemma_handed_over(world: World, event: Event, lead: int)
    requires
        world.consistent(),
        world.attributed(),
        world.handed_over(lead),
        world.allows(event),
        world.timely(event, lead),
    ensures
        world.after(event).handed_over(lead),
{
    match event {
        Event::Claim { id, contender, seen, fresh, answered } => {
            if world.slot.admits(crate::model::demand(seen)) {
                match world.slot.object {
                    None => {
                        assert(world.slot.issued == Map::<Seq<char>, LeaseView>::empty());
                    },
                    Some((version, record)) => {
                        assert(seen == Some((version, record)));
                        assert(record.expired(contender.now));
                    },
                }
            }
        },
        Event::Arrives { request, fresh, answered } => {
            assert(world.requests.contains(request));
        },
        Event::Answer { id } => {
            assert(world.answers.contains_key(id));
        },
        _ => {},
    }
}

/// A consistent world stays so.
pub proof fn lemma_history(world: World, events: Seq<Event>)
    requires
        world.consistent(),
        possible(world, events),
    ensures
        history(world, events).consistent(),
    decreases events.len(),
{
    if events.len() > 0 {
        lemma_earlier(world, events);
        lemma_history(world, events.drop_last());
        law_events_keep_consistency(history(world, events.drop_last()), events.last());
    }
}

/// A world with every record attributed stays so.
pub proof fn lemma_attributed_history(world: World, events: Seq<Event>)
    requires
        world.consistent(),
        world.attributed(),
        possible(world, events),
    ensures
        history(world, events).consistent(),
        history(world, events).attributed(),
    decreases events.len(),
{
    lemma_history(world, events);
    if events.len() > 0 {
        let earlier = events.drop_last();
        lemma_earlier(world, events);
        lemma_attributed_history(world, earlier);
        law_events_keep_attribution(history(world, earlier), events.last());
    }
}

/// A world in which leases are handed over in time stays so.
pub proof fn lemma_timely_history(world: World, events: Seq<Event>, lead: int)
    requires
        world.consistent(),
        world.attributed(),
        world.handed_over(lead),
        possible(world, events),
        all_timely(world, events, lead),
    ensures
        history(world, events).handed_over(lead),
    decreases events.len(),
{
    if events.len() > 0 {
        let earlier = events.drop_last();
        lemma_earlier(world, events);
        lemma_attributed_history(world, earlier);
        lemma_timely_history(world, earlier, lead);
        lemma_handed_over(history(world, earlier), events.last(), lead);
    }
}

/// A lease that no one ever held is a fine start.
pub proof fn lemma_untouched(time: int, lead: int)
    ensures
        untouched(time).consistent(),
        untouched(time).attributed(),
        untouched(time).handed_over(lead),
{
}

/// Whether no answer to the guard `id` arrives in a series of events, as none
/// does once the guard has been given up.
pub open spec fn unanswered(events: Seq<Event>, id: nat) -> bool {
    forall|i: int| 0 <= i < events.len() ==> #[trigger] events[i] != (Event::Answer { id })
}

/// A guard that is adrift, and that no answer reaches, stays so and writes
/// nothing more: a record that is in its name later is the one that was current
/// already.
pub proof fn lemma_adrift(world: World, events: Seq<Event>, id: nat)
    requires
        world.consistent(),
        world.attributed(),
        possible(world, events),
        unanswered(events, id),
        world.adrift(id),
    ensures
        history(world, events).adrift(id),
        history(world, events).in_name_of(id) ==> history(world, events).slot.object
            == world.slot.object && world.in_name_of(id),
    decreases events.len(),
{
    if events.len() > 0 {
        let earlier = events.drop_last();
        lemma_earlier(world, events);
        lemma_attributed_history(world, earlier);
        assert forall|i: int| 0 <= i < earlier.len() implies #[trigger] earlier[i] != (
        Event::Answer { id }) by {
            assert(events[i] == earlier[i]);
        }
        assert(events[events.len() - 1] != (Event::Answer { id }));
        lemma_adrift(world, earlier, id);
        let before = history(world, earlier);
        let after = history(world, events);
        let event = events.last();
        assert(before.slot.issued.contains_key(before.guards[id].version));
        match event {
            Event::Arrives { request, fresh, answered } => {
                assert(before.requests.contains(request));
            },
            _ => {},
        }
        if after.in_name_of(id) {
            assert(after.slot.object == before.slot.object);
            assert(before.in_name_of(id));
        }
    }
}

} // verus!
