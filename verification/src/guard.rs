//! A held lease: renewing it, keeping it alive in the background, and giving it
//! up.

use vstd::prelude::*;

use crate::error::CoordError;
use crate::lease::{make_lease, release_lease, release_outcome, Lease};
use crate::message::get_message;
use crate::store::{ObjectMeta, PutMode, PutRequest, StoreError, Version};
use crate::time::{Duration, SystemTime};

verus! {

/// A held lease.
#[derive(Debug, PartialEq, Eq)]
pub struct LeaseGuard {
    key: String,
    holder: String,
    purpose: String,
    version: Version,
    expires_at: SystemTime,
    epoch: u64,
    /// Stable fencing token for this acquisition. Heartbeats advance the
    /// lease's epoch, but must not change the token that a downstream writer
    /// uses to fence stale work from this owner.
    fence_token: u64,
    /// Set once the lease has been given up or found lost, so that it is given
    /// up at most once and the background heartbeat knows when to stop.
    released: bool,
    /// The heartbeats that were sent over `version` and may have been written
    /// without this guard learning of it, oldest first.
    doubtful: Vec<Lease>,
}

/// A held lease, with its expiry in nanoseconds since the Unix epoch.
#[verifier::ext_equal]
pub struct GuardView {
    pub key: Seq<char>,
    pub holder: Seq<char>,
    pub purpose: Seq<char>,
    pub version: Seq<char>,
    pub expires_at: int,
    pub epoch: nat,
    pub fence_token: nat,
    pub released: bool,
    pub doubtful: Seq<crate::lease::LeaseView>,
}

/// The records of a series of leases.
pub open spec fn records(leases: Seq<Lease>) -> Seq<crate::lease::LeaseView> {
    Seq::new(leases.len(), |i: int| leases[i]@)
}

impl View for LeaseGuard {
    type V = GuardView;

    closed spec fn view(&self) -> GuardView {
        GuardView {
            key: self.key@,
            holder: self.holder@,
            purpose: self.purpose@,
            version: self.version@,
            expires_at: self.expires_at@,
            epoch: self.epoch as nat,
            fence_token: self.fence_token as nat,
            released: self.released,
            doubtful: records(self.doubtful@),
        }
    }
}

impl GuardView {
    /// The guard of a lease just taken at `now` for `ttl`, with `epoch` as its
    /// fencing token.
    pub open spec fn acquired(
        key: Seq<char>,
        holder: Seq<char>,
        purpose: Seq<char>,
        version: Seq<char>,
        now: int,
        ttl: int,
        epoch: nat,
    ) -> GuardView {
        GuardView {
            key,
            holder,
            purpose,
            version,
            expires_at: now + ttl,
            epoch,
            fence_token: epoch,
            released: false,
            doubtful: Seq::empty(),
        }
    }

    /// Whether `record` is that of a heartbeat in doubt.
    pub open spec fn doubts(self, record: crate::lease::LeaseView) -> bool {
        self.doubtful.contains(record)
    }

    /// The guard once a heartbeat has been sent, at `now` for `ttl`: it is in
    /// doubt until the store has answered.
    pub open spec fn heartbeat_sent(self, now: int, ttl: int) -> GuardView {
        GuardView {
            epoch: self.epoch + 1,
            doubtful: self.doubtful.push(self.heartbeat_record(now, ttl)),
            ..self
        }
    }

    /// The record that a heartbeat writes, at `now` for `ttl`.
    pub open spec fn heartbeat_record(self, now: int, ttl: int) -> crate::lease::LeaseView {
        crate::lease::held_lease(self.holder, self.purpose, now, ttl, self.epoch + 1)
    }

    /// The guard once its heartbeat has been written as `version`, good until
    /// `expires_at`. Nothing sent over the version before can be written any
    /// more, so nothing is in doubt.
    pub open spec fn heartbeat_written(self, version: Seq<char>, expires_at: int) -> GuardView {
        GuardView { version, expires_at, doubtful: Seq::empty(), ..self }
    }

    /// The guard once its heartbeat with `epoch` has been refused: that one is
    /// not in doubt.
    pub open spec fn heartbeat_refused(self, epoch: nat) -> GuardView {
        if self.doubtful.len() > 0 && self.doubtful.last().epoch == epoch {
            GuardView { doubtful: self.doubtful.drop_last(), ..self }
        } else {
            self
        }
    }

    /// The guard once the store has answered its heartbeat. Any answer but a
    /// success and a collision leaves the heartbeat in doubt.
    pub open spec fn heartbeat_answered(
        self,
        heartbeat: HeartbeatView,
        reply: Result<ObjectMeta, StoreError>,
    ) -> GuardView {
        match reply {
            Ok(meta) => self.heartbeat_written(meta.version@, heartbeat.expires_at),
            Err(StoreError::PreconditionFailed { key, current }) => self.heartbeat_refused(
                heartbeat.epoch,
            ),
            Err(_) => self,
        }
    }

    /// The heartbeat that the guard sends next, at `now` for `ttl`.
    pub open spec fn next_heartbeat(self, now: int, ttl: int) -> HeartbeatView {
        HeartbeatView { expires_at: now + ttl, epoch: self.epoch + 1 }
    }

    /// The guard once it has sent a heartbeat, at `now` for `ttl`, and the store
    /// has answered it.
    pub open spec fn after_heartbeat(
        self,
        now: int,
        ttl: int,
        reply: Result<ObjectMeta, StoreError>,
    ) -> GuardView {
        self.heartbeat_sent(now, ttl).heartbeat_answered(self.next_heartbeat(now, ttl), reply)
    }

    /// The record that giving the lease up writes.
    pub open spec fn release_record(self) -> crate::lease::LeaseView {
        crate::lease::tombstone(self.purpose, self.epoch)
    }

    /// The guard once the lease has been given up.
    pub open spec fn given_up(self) -> GuardView {
        GuardView { released: true, ..self }
    }

    /// What remains of the guard while its lease is being given up.
    pub open spec fn release_under_way(self) -> ReleaseView {
        ReleaseView { key: self.key, doubtful: self.doubtful }
    }

    /// Whether everything in doubt is of this guard's holder, and live.
    pub open spec fn doubts_its_own(self) -> bool {
        forall|record: crate::lease::LeaseView| #[trigger]
            self.doubts(record) ==> record.holder == self.holder && record.is_live()
    }

    /// Whether the guard asks for its lease to be given up when it goes out of
    /// use.
    pub open spec fn asks_on_drop(self) -> bool {
        !self.released
    }

    /// Whether more than `margin` of the lease is left when the clock reads
    /// `now`.
    pub open spec fn usable(self, now: int, margin: int) -> bool {
        self.expires_at > now + margin
    }
}

/// A heartbeat that has been sent and not yet answered.
#[derive(Debug, PartialEq, Eq)]
pub struct Heartbeat {
    expires_at: SystemTime,
    epoch: u64,
}

/// When the lease runs out if the heartbeat is written, in nanoseconds since the
/// Unix epoch, and the epoch it is written with.
pub struct HeartbeatView {
    pub expires_at: int,
    pub epoch: nat,
}

impl View for Heartbeat {
    type V = HeartbeatView;

    closed spec fn view(&self) -> HeartbeatView {
        HeartbeatView { expires_at: self.expires_at@, epoch: self.epoch as nat }
    }
}

/// What a heartbeat returns, given the store's answer.
pub open spec fn heartbeat_outcome(reply: Result<ObjectMeta, StoreError>) -> Result<
    (),
    CoordError,
> {
    match reply {
        Ok(_) => Ok(()),
        Err(StoreError::PreconditionFailed { key, current }) => Err(CoordError::LeaseLost),
        Err(error) => Err(CoordError::Store(error)),
    }
}

impl LeaseGuard {
    /// Heartbeats only ever advance the epoch past the fencing token, and those
    /// in doubt are this holder's, with the epochs since.
    #[verifier::type_invariant]
    spec fn heartbeats_since_token(self) -> bool {
        &&& self.fence_token <= self.epoch
        &&& forall|i: int|
            0 <= i < self.doubtful@.len() ==> {
                let record = (#[trigger] self.doubtful@[i])@;
                record.is_live() && record.holder == self.holder@ && self.fence_token
                    < record.epoch <= self.epoch
            }
    }

    /// The guard of a lease that was just written as `version`.
    pub fn new(
        key: &str,
        holder: &str,
        purpose: &str,
        version: Version,
        now: SystemTime,
        ttl: Duration,
        epoch: u64,
    ) -> (guard: LeaseGuard)
        requires
            now@ + ttl@ <= crate::time::system_time_max(),
        ensures
            guard@ == GuardView::acquired(
                key@,
                holder@,
                purpose@,
                version@,
                now@,
                ttl@,
                epoch as nat,
            ),
    {
        LeaseGuard {
            key: key.to_owned(),
            holder: holder.to_owned(),
            purpose: purpose.to_owned(),
            version,
            expires_at: now.plus(ttl),
            epoch,
            fence_token: epoch,
            released: false,
            doubtful: Vec::new(),
        }
    }

    /// Send a heartbeat: a write that extends the lease to `ttl` after `now`
    /// and advances its epoch, over the version written last and no other. The
    /// answer goes to [`LeaseGuard::on_heartbeat`].
    pub fn heartbeat<E>(&mut self, now: SystemTime, ttl: Duration, encode: E) -> (sent: (
        Heartbeat,
        PutRequest,
    )) where E: FnOnce(&Lease) -> Vec<u8>
        requires
            old(self)@.epoch < u64::MAX,
            now@ + ttl@ <= crate::time::system_time_max(),
            forall|lease: &Lease| encode.requires((lease,)),
        ensures
            final(self)@ == old(self)@.heartbeat_sent(now@, ttl@),
            sent.0@ == old(self)@.next_heartbeat(now@, ttl@),
            crate::lease::writes_lease(
                sent.1,
                old(self)@.key,
                Some(old(self)@.version),
                old(self)@.heartbeat_record(now@, ttl@),
                encode,
            ),
    {
        proof {
            use_type_invariant(&*self);
        }
        self.epoch = self.epoch + 1;
        let lease = make_lease(
            self.holder.as_str(),
            self.purpose.as_str(),
            now,
            ttl,
            self.epoch,
        );
        let body = encode(&lease);
        let request = PutRequest {
            key: self.key.clone(),
            body,
            mode: PutMode::Update(self.version.clone()),
        };
        assert(encode.ensures((&lease,), request.body));
        let mut doubtful: Vec<Lease> = Vec::new();
        std::mem::swap(&mut doubtful, &mut self.doubtful);
        doubtful.push(lease);
        self.doubtful = doubtful;
        (Heartbeat { expires_at: now.plus(ttl), epoch: self.epoch }, request)
    }

    /// Take the store's answer to a heartbeat. Finding another version means
    /// that someone has taken the lease, or that a heartbeat in doubt was written
    /// after all: [`CoordError::LeaseLost`] either way.
    pub fn on_heartbeat(
        &mut self,
        heartbeat: Heartbeat,
        reply: Result<ObjectMeta, StoreError>,
    ) -> (outcome: Result<(), CoordError>)
        ensures
            final(self)@ == old(self)@.heartbeat_answered(heartbeat@, reply),
            outcome == heartbeat_outcome(reply),
    {
        proof {
            use_type_invariant(&*self);
        }
        match reply {
            Ok(meta) => {
                self.version = meta.version;
                self.expires_at = heartbeat.expires_at;
                self.doubtful = Vec::new();
                Ok(())
            },
            Err(StoreError::PreconditionFailed { key: _, current: _ }) => {
                let mut doubtful: Vec<Lease> = Vec::new();
                std::mem::swap(&mut doubtful, &mut self.doubtful);
                let n: usize = doubtful.len();
                if n > 0 && doubtful[n - 1].epoch == heartbeat.epoch {
                    doubtful.pop();
                }
                self.doubtful = doubtful;
                Err(CoordError::LeaseLost)
            },
            Err(error) => Err(CoordError::Store(error)),
        }
    }

    /// Give the lease up: the write to put to the store. It succeeds only over
    /// the version that this guard wrote last, as far as it knows; the answer
    /// goes to [`LeaseRelease::on_put`].
    pub fn release<E>(&mut self, encode: E) -> (asked: (LeaseRelease, PutRequest)) where
        E: FnOnce(&Lease) -> Vec<u8>,

        requires
            forall|lease: &Lease| encode.requires((lease,)),
        ensures
            final(self)@ == old(self)@.given_up(),
            asked.0@ == old(self)@.release_under_way(),
            old(self)@.doubts_its_own(),
            crate::lease::writes_lease(
                asked.1,
                old(self)@.key,
                Some(old(self)@.version),
                old(self)@.release_record(),
                encode,
            ),
    {
        proof {
            use_type_invariant(&*self);
        }
        self.released = true;
        let request = release_lease(
            self.key.as_str(),
            self.purpose.as_str(),
            self.version.clone(),
            self.epoch,
            encode,
        );
        let release = LeaseRelease { key: self.key.clone(), doubtful: copied(&self.doubtful) };
        (release, request)
    }

    /// Give the lease up as the guard goes out of use, unless that has been
    /// done already: the write to put to the store, with no one left to tell
    /// what becomes of it.
    pub fn release_on_drop<E>(&mut self, encode: E) -> (request: Option<PutRequest>) where
        E: FnOnce(&Lease) -> Vec<u8>,

        requires
            forall|lease: &Lease| encode.requires((lease,)),
        ensures
            final(self)@ == old(self)@.given_up(),
            match request {
                None => !old(self)@.asks_on_drop(),
                Some(request) => old(self)@.asks_on_drop() && crate::lease::writes_lease(
                    request,
                    old(self)@.key,
                    Some(old(self)@.version),
                    old(self)@.release_record(),
                    encode,
                ),
            },
    {
        if self.released {
            None
        } else {
            let (_, request) = self.release(encode);
            Some(request)
        }
    }

    /// Who holds the lease.
    pub fn holder(&self) -> (holder: &str)
        ensures
            holder@ == self@.holder,
    {
        self.holder.as_str()
    }

    /// When the lease runs out, as far as this guard has been told.
    pub fn expires_at(&self) -> (time: SystemTime)
        ensures
            time@ == self@.expires_at,
    {
        self.expires_at
    }

    /// Stable token identifying this acquisition. It increases only when a
    /// successor takes the lease over, not on heartbeats.
    pub fn fencing_token(&self) -> (token: u64)
        ensures
            token == self@.fence_token,
            token <= self@.epoch,
    {
        proof {
            use_type_invariant(self);
        }
        self.fence_token
    }

    /// The number that the lease was last written with, or will have been once
    /// a heartbeat in flight is written.
    pub fn epoch(&self) -> (epoch: u64)
        ensures
            epoch == self@.epoch,
    {
        self.epoch
    }

    /// The key that the lease is kept under.
    pub fn key(&self) -> (key: &str)
        ensures
            key@ == self@.key,
    {
        self.key.as_str()
    }
}

/// A copy of a series of leases.
fn copied(leases: &Vec<Lease>) -> (copy: Vec<Lease>)
    ensures
        copy@ == leases@,
{
    let mut copy: Vec<Lease> = Vec::new();
    let mut i: usize = 0;
    while i < leases.len()
        invariant
            i <= leases@.len(),
            copy@ == leases@.take(i as int),
        decreases leases@.len() - i,
    {
        copy.push(leases[i].clone());
        assert(copy@ =~= leases@.take(i + 1));
        i = i + 1;
    }
    assert(leases@.take(i as int) =~= leases@);
    copy
}

/// A lease being given up, whose write has been sent and not yet answered.
#[derive(Debug, PartialEq, Eq)]
pub struct LeaseRelease {
    key: String,
    doubtful: Vec<Lease>,
}

/// The lease being given up, and the records of the heartbeats in doubt.
pub struct ReleaseView {
    pub key: Seq<char>,
    pub doubtful: Seq<crate::lease::LeaseView>,
}

impl View for LeaseRelease {
    type V = ReleaseView;

    closed spec fn view(&self) -> ReleaseView {
        ReleaseView { key: self.key@, doubtful: records(self.doubtful@) }
    }
}

/// A lease being given up, whose write the store refused, and whose record is to
/// be read: the collision may have been with a heartbeat of its own.
#[derive(Debug, PartialEq, Eq)]
pub struct ReleaseReread {
    release: LeaseRelease,
    refusal: StoreError,
}

impl ReleaseReread {
    /// The lease being given up.
    pub closed spec fn release(self) -> ReleaseView {
        self.release@
    }

    /// How the store refused the write.
    pub closed spec fn refusal(self) -> StoreError {
        self.refusal
    }
}

/// What giving a lease up does once its write has been answered.
#[derive(Debug, PartialEq)]
pub enum ReleaseStep {
    /// The release is over.
    Finished(Result<(), CoordError>),
    /// The record is to be read.
    Reread(ReleaseReread),
}

/// What giving a lease up does once its record has been read.
#[derive(Debug, PartialEq)]
pub enum ReleaseAnswer {
    /// The release is over.
    Finished(Result<(), CoordError>),
    /// The read failed, and whether the lease is still in its holder's name is
    /// not known: the record is to be read again.
    Unread(ReleaseReread, CoordError),
}

impl ReleaseView {
    /// What the release returns, given the store's answer to its write; `None`
    /// if the record has to be read first, since the write may have collided
    /// with a heartbeat in doubt.
    pub open spec fn answered(self, reply: Result<ObjectMeta, StoreError>) -> Option<
        Result<(), CoordError>,
    > {
        match reply {
            Err(StoreError::PreconditionFailed { key, current }) => if self.doubtful.len() == 0 {
                Some(Ok(()))
            } else {
                None
            },
            _ => Some(crate::lease::release_result(reply)),
        }
    }

    /// Whether `record` is that of a heartbeat in doubt.
    pub open spec fn doubts(self, record: crate::lease::LeaseView) -> bool {
        self.doubtful.contains(record)
    }

    /// Whether `record`, read when the clock reads `now`, shows the lease to be
    /// held still by a heartbeat in doubt.
    pub open spec fn still_held(self, record: crate::lease::LeaseView, now: int) -> bool {
        self.doubts(record) && now < record.runs_out()
    }

    /// What the release returns, given how the store refused its write and what
    /// reading the record gave, with the clock at `now`; `None` if the read
    /// failed. A record that is no lease is none of this holder's.
    pub open spec fn reread(
        self,
        refusal: StoreError,
        current: Result<Option<(ObjectMeta, Lease)>, CoordError>,
        now: int,
    ) -> Option<Result<(), CoordError>> {
        match current {
            Ok(Some((_, lease))) => if self.still_held(lease@, now) {
                Some(Err(CoordError::Store(refusal)))
            } else {
                Some(Ok(()))
            },
            Ok(None) => Some(Ok(())),
            Err(CoordError::Store(StoreError::NotFound { key })) => Some(Ok(())),
            Err(CoordError::Decode(_)) => Some(Ok(())),
            Err(_) => None,
        }
    }
}

impl LeaseRelease {
    /// Take the store's answer to the write. A lease that is not at the version
    /// this guard knew of is no longer in its name, unless a heartbeat is in
    /// doubt: then the record has to be read to tell.
    pub fn on_put(self, reply: Result<ObjectMeta, StoreError>) -> (step: ReleaseStep)
        ensures
            match self@.answered(reply) {
                Some(outcome) => step == ReleaseStep::Finished(outcome),
                None => step matches ReleaseStep::Reread(again) && again.release() == self@
                    && reply == Err::<ObjectMeta, StoreError>(again.refusal()),
            },
    {
        match reply {
            Err(StoreError::PreconditionFailed { key, current }) => {
                if self.doubtful.len() == 0 {
                    ReleaseStep::Finished(Ok(()))
                } else {
                    let refusal = StoreError::PreconditionFailed { key, current };
                    ReleaseStep::Reread(ReleaseReread { release: self, refusal })
                }
            },
            other => ReleaseStep::Finished(release_outcome(other)),
        }
    }

    /// Whether `lease` is the record of a heartbeat in doubt.
    fn is_doubtful(&self, lease: &Lease) -> (doubtful: bool)
        ensures
            doubtful == self@.doubts(lease@),
    {
        let mut i: usize = 0;
        while i < self.doubtful.len()
            invariant
                i <= self.doubtful@.len(),
                forall|j: int| 0 <= j < i ==> (#[trigger] self.doubtful@[j])@ != lease@,
            decreases self.doubtful@.len() - i,
        {
            if self.doubtful[i].is_same(lease) {
                assert(self@.doubtful[i as int] == lease@);
                return true;
            }
            i = i + 1;
        }
        false
    }
}

impl ReleaseReread {
    /// The key to read.
    pub fn key(&self) -> (key: &str)
        ensures
            key@ == self.release().key,
    {
        self.release.key.as_str()
    }

    /// Decide from what was read, with the clock at `now`. If it is a heartbeat
    /// in doubt that has not run out, the lease is held in this holder's name
    /// still, and the release failed as the store said. If it is anything else,
    /// no one holds the lease in this holder's name.
    pub fn on_current(
        self,
        current: Result<Option<(ObjectMeta, Lease)>, CoordError>,
        now: SystemTime,
    ) -> (answer: ReleaseAnswer)
        ensures
            match self.release().reread(self.refusal(), current, now@) {
                Some(outcome) => answer == ReleaseAnswer::Finished(outcome),
                None => current matches Err(error) && answer == ReleaseAnswer::Unread(self, error),
            },
    {
        match current {
            Ok(Some((_, lease))) => {
                let runs_out = match lease.expires_at {
                    Some(time) => time,
                    None => SystemTime::unix_epoch(),
                };
                if self.release.is_doubtful(&lease) && runs_out.is_after(now) {
                    ReleaseAnswer::Finished(Err(CoordError::Store(self.refusal)))
                } else {
                    ReleaseAnswer::Finished(Ok(()))
                }
            },
            Ok(None) => ReleaseAnswer::Finished(Ok(())),
            Err(CoordError::Store(StoreError::NotFound { key: _ })) => ReleaseAnswer::Finished(
                Ok(()),
            ),
            Err(CoordError::Decode(_)) => ReleaseAnswer::Finished(Ok(())),
            Err(error) => ReleaseAnswer::Unread(self, error),
        }
    }

    /// Decide from the store's answer to the read: as
    /// [`ReleaseReread::on_current`], with the contents of a found record passed
    /// through `decode` first.
    pub fn on_read<D>(
        self,
        reply: Result<Option<(ObjectMeta, Vec<u8>)>, StoreError>,
        decode: D,
        now: SystemTime,
    ) -> (answer: ReleaseAnswer) where D: FnOnce(Vec<u8>) -> Result<Lease, prost::DecodeError>
        requires
            forall|body: Vec<u8>| decode.requires((body,)),
        ensures
            exists|current: Result<Option<(ObjectMeta, Lease)>, CoordError>|
                {
                    &&& #[trigger] crate::message::fetched(reply, decode, current)
                    &&& match self.release().reread(self.refusal(), current, now@) {
                        Some(outcome) => answer == ReleaseAnswer::Finished(outcome),
                        None => current matches Err(error) && answer == ReleaseAnswer::Unread(
                            self,
                            error,
                        ),
                    }
                },
    {
        let current = get_message(reply, decode);
        assert(crate::message::fetched(reply, decode, current));
        self.on_current(current, now)
    }
}

/// A renewal under way: the lease is checked, extended at most twice, and only
/// reported usable on a check that finds it so.
#[derive(Debug, PartialEq, Eq)]
pub struct Renewal {
    ttl: Duration,
    margin: Duration,
    heartbeats_left: u8,
}

/// What a renewal asks for, in nanoseconds, and how many heartbeats it may
/// still send.
pub struct RenewalView {
    pub ttl: int,
    pub margin: int,
    pub heartbeats_left: nat,
}

impl RenewalView {
    /// The renewal with one heartbeat spent.
    pub open spec fn one_less(self) -> RenewalView {
        RenewalView { heartbeats_left: (self.heartbeats_left - 1) as nat, ..self }
    }
}

impl View for Renewal {
    type V = RenewalView;

    closed spec fn view(&self) -> RenewalView {
        RenewalView {
            ttl: self.ttl@,
            margin: self.margin@,
            heartbeats_left: self.heartbeats_left as nat,
        }
    }
}

/// What a renewal does after a look at the clock.
#[derive(Debug, PartialEq, Eq)]
pub enum RenewalCheck {
    /// The renewal is over: whether a usable window is confirmed.
    Finished(bool),
    /// A heartbeat for [`Renewal::ttl`] is to be sent.
    Heartbeat(Renewal),
}

/// What a renewal does after a heartbeat.
#[derive(Debug, PartialEq)]
pub enum RenewalProgress {
    /// The clock is to be looked at again.
    Check(Renewal),
    /// The renewal is over.
    Finished(Result<bool, CoordError>),
}

impl LeaseGuard {
    /// Renew the lease for `ttl`, if no more than a third of `ttl` is left of
    /// it. A store response may itself arrive after the renewed expiry, so the
    /// heartbeat is tried twice, and the answer is `false` unless a usable
    /// window is confirmed.
    pub fn renew_if_needed(&self, ttl: Duration) -> (renewal: Renewal)
        ensures
            renewal@ == (RenewalView { ttl: ttl@, margin: ttl@ / 3, heartbeats_left: 2 }),
    {
        Renewal { ttl, margin: ttl.third(), heartbeats_left: 2 }
    }
}

impl Renewal {
    /// A renewal sends no more than two heartbeats.
    #[verifier::type_invariant]
    spec fn at_most_two_heartbeats(self) -> bool {
        self.heartbeats_left <= 2
    }

    /// How long each heartbeat extends the lease for.
    pub fn ttl(&self) -> (ttl: Duration)
        ensures
            ttl@ == self@.ttl,
    {
        self.ttl
    }

    /// How much of the lease must be left for it to be usable.
    pub fn margin(&self) -> (margin: Duration)
        ensures
            margin@ == self@.margin,
    {
        self.margin
    }

    /// Look at the clock: the renewal ends if the lease is usable or the
    /// heartbeats are used up, and otherwise sends another.
    pub fn check(self, guard: &LeaseGuard, now: SystemTime) -> (check: RenewalCheck)
        requires
            now@ + self@.margin <= crate::time::system_time_max(),
        ensures
            if guard@.usable(now@, self@.margin) {
                check == RenewalCheck::Finished(true)
            } else if self@.heartbeats_left == 0 {
                check == RenewalCheck::Finished(false)
            } else {
                check matches RenewalCheck::Heartbeat(next) && next@ == self@.one_less()
            },
    {
        proof {
            use_type_invariant(&self);
        }
        if guard.expires_at.is_after(now.plus(self.margin)) {
            RenewalCheck::Finished(true)
        } else if self.heartbeats_left == 0 {
            RenewalCheck::Finished(false)
        } else {
            RenewalCheck::Heartbeat(
                Renewal {
                    ttl: self.ttl,
                    margin: self.margin,
                    heartbeats_left: self.heartbeats_left - 1,
                },
            )
        }
    }

    /// Take the outcome of a heartbeat. A lost lease is not usable; any other
    /// failure is the renewal's own.
    pub fn on_heartbeat(self, outcome: Result<(), CoordError>) -> (progress: RenewalProgress)
        ensures
            progress == match outcome {
                Ok(_) => RenewalProgress::Check(self),
                Err(CoordError::LeaseLost) => RenewalProgress::Finished(Ok(false)),
                Err(error) => RenewalProgress::Finished(Err(error)),
            },
    {
        match outcome {
            Ok(()) => RenewalProgress::Check(self),
            Err(CoordError::LeaseLost) => RenewalProgress::Finished(Ok(false)),
            Err(error) => RenewalProgress::Finished(Err(error)),
        }
    }
}

/// A background task that keeps a lease alive, asleep: it is to sleep for
/// [`HeartbeatTask::every`] and then wake. Every round of the task starts so, the
/// first one too.
#[derive(Debug, PartialEq, Eq)]
pub struct HeartbeatTask {
    every: Duration,
    ttl: Duration,
}

/// How long a task sleeps, and how long each heartbeat extends the lease for, in
/// nanoseconds.
pub struct TaskView {
    pub every: int,
    pub ttl: int,
}

impl View for HeartbeatTask {
    type V = TaskView;

    closed spec fn view(&self) -> TaskView {
        TaskView { every: self.every@, ttl: self.ttl@ }
    }
}

/// A background task that is awake: it is to send one heartbeat for
/// [`HeartbeatRound::ttl`].
#[derive(Debug, PartialEq, Eq)]
pub struct HeartbeatRound {
    task: HeartbeatTask,
}

impl View for HeartbeatRound {
    type V = TaskView;

    closed spec fn view(&self) -> TaskView {
        self.task@
    }
}

/// Whether a task that wakes up to `guard` sends a heartbeat, and does not end.
pub open spec fn sends_on_wake(guard: GuardView) -> bool {
    !guard.released
}

/// Whether a task goes on after a heartbeat with the given outcome.
pub open spec fn goes_on_after(outcome: Result<(), CoordError>) -> bool {
    outcome != Err::<(), CoordError>(CoordError::LeaseLost)
}

impl HeartbeatTask {
    /// How long the task sleeps before each heartbeat.
    pub fn every(&self) -> (every: Duration)
        ensures
            every@ == self@.every,
    {
        self.every
    }

    /// Wake up: the round in which one heartbeat is to be sent, or `None` if the
    /// lease was given up meanwhile and the task is over.
    pub fn on_wake(self, guard: &LeaseGuard) -> (round: Option<HeartbeatRound>)
        ensures
            match round {
                Some(round) => sends_on_wake(guard@) && round@ == self@,
                None => !sends_on_wake(guard@),
            },
    {
        if guard.released {
            None
        } else {
            Some(HeartbeatRound { task: self })
        }
    }
}

impl HeartbeatRound {
    /// How long the heartbeat extends the lease for.
    pub fn ttl(&self) -> (ttl: Duration)
        ensures
            ttl@ == self@.ttl,
    {
        self.task.ttl
    }

    /// Take the outcome of the heartbeat: the task asleep again, or `None` if it
    /// is over. It ends when the lease is lost, and marks the guard so; after
    /// any other failure it keeps trying, since the store may recover.
    pub fn on_heartbeat(self, guard: &mut LeaseGuard, outcome: &Result<(), CoordError>) -> (task:
        Option<HeartbeatTask>)
        ensures
            match task {
                Some(task) => {
                    &&& goes_on_after(*outcome)
                    &&& task@ == self@
                    &&& final(guard)@ == old(guard)@
                },
                None => !goes_on_after(*outcome) && final(guard)@ == old(guard)@.given_up(),
            },
    {
        match outcome {
            Err(CoordError::LeaseLost) => {
                proof {
                    use_type_invariant(&*guard);
                }
                guard.released = true;
                None
            },
            _ => Some(self.task),
        }
    }
}

impl LeaseGuard {
    /// A task that sends a heartbeat for `ttl` every `every`, starting with a
    /// sleep.
    pub fn spawn_heartbeat(every: Duration, ttl: Duration) -> (task: HeartbeatTask)
        ensures
            task@ == (TaskView { every: every@, ttl: ttl@ }),
    {
        HeartbeatTask { every, ttl }
    }
}

} // verus!
