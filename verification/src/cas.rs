//! The read-modify-write loop on one object.
//!
//! The caller reads the object and hands what it read to
//! [`CasUpdate::on_current`]; that either ends the update or asks for a write.
//! The store's answer goes to [`CasWrite::on_put`], which ends the update or
//! sends the caller back to the read, at once or after a pause.

use vstd::prelude::*;

use crate::error::CoordError;
use crate::message::get_message;
use crate::store::{ObjectMeta, PutMode, PutRequest, StoreError};
use crate::time::Duration;

verus! {

/// A pause for the caller to draw: a jittered backoff for the given attempt,
/// growing from `base` and never above `cap`.
#[derive(Debug, PartialEq, Eq)]
pub struct BackoffRequest {
    pub attempt: u32,
    pub base: Duration,
    pub cap: Duration,
}

/// An update that is about to read its object.
#[derive(Debug, PartialEq, Eq)]
pub struct CasUpdate {
    key: String,
    max_retries: u32,
    attempts: u32,
}

/// The object an update works on, its budget, and how many writes have failed.
pub struct CasView {
    pub key: Seq<char>,
    pub max_retries: u32,
    pub attempts: u32,
}

impl View for CasUpdate {
    type V = CasView;

    closed spec fn view(&self) -> CasView {
        CasView { key: self.key@, max_retries: self.max_retries, attempts: self.attempts }
    }
}

/// An update whose write is in flight.
#[derive(Debug, PartialEq, Eq)]
pub struct CasWrite<T> {
    update: CasUpdate,
    new: T,
}

impl<T> CasWrite<T> {
    /// The update that the write belongs to.
    pub closed spec fn update(self) -> CasView {
        self.update@
    }

    /// The message being written.
    pub closed spec fn new_message(self) -> T {
        self.new
    }
}

/// What an update does once it has read its object.
#[derive(Debug, PartialEq)]
pub enum CasPlan<T> {
    /// The update is over.
    Finished(Result<Option<(ObjectMeta, T)>, CoordError>),
    /// The request is to be put to the store.
    Write(CasWrite<T>, PutRequest),
}

/// What an update does once its write has been answered.
#[derive(Debug, PartialEq)]
pub enum CasOutcome<T> {
    /// The update is over.
    Finished(Result<Option<(ObjectMeta, T)>, CoordError>),
    /// The object is to be read again.
    Reread(CasUpdate),
    /// The object is to be read again, after a pause.
    Backoff(CasUpdate, BackoffRequest),
}

/// How an update goes on after a write.
pub enum CasVerdict {
    /// The write was made.
    Written,
    /// The next attempt reads the object again at once.
    Reread(CasView),
    /// The next attempt reads the object again after a pause for the given
    /// attempt.
    Backoff(CasView, u32),
    /// The budget is spent, after so many attempts.
    Exhausted(nat),
    /// The store failed in a way that another attempt does not mend.
    Failed(StoreError),
}

/// Whether a write answered so is tried again, and counted.
pub open spec fn counts_as_attempt(reply: Result<ObjectMeta, StoreError>) -> bool {
    match reply {
        Err(StoreError::PreconditionFailed { key, current }) => true,
        Err(StoreError::Retryable(_)) => true,
        _ => false,
    }
}

/// How an update goes on, given the store's answer to its write.
pub open spec fn verdict(update: CasView, reply: Result<ObjectMeta, StoreError>) -> CasVerdict {
    let attempts = (update.attempts + 1) as nat;
    let next = CasView { attempts: attempts as u32, ..update };
    match reply {
        Ok(_) => CasVerdict::Written,
        Err(StoreError::PreconditionFailed { key, current }) => if attempts > update.max_retries {
            CasVerdict::Exhausted(attempts)
        } else {
            CasVerdict::Reread(next)
        },
        Err(StoreError::Retryable(_)) => if attempts > update.max_retries {
            CasVerdict::Exhausted(attempts)
        } else {
            CasVerdict::Backoff(next, update.attempts)
        },
        Err(error) => CasVerdict::Failed(error),
    }
}

/// The version of what an update read, `None` if the object was absent.
pub open spec fn seen_version<T>(current: Option<(ObjectMeta, T)>) -> Option<Seq<char>> {
    match current {
        Some((meta, _)) => Some(meta.version@),
        None => None,
    }
}

/// The message that an update read, as its function is given it.
pub open spec fn seen_message<T>(current: &Option<(ObjectMeta, T)>) -> Option<&T> {
    match current {
        Some((_, message)) => Some(message),
        None => None,
    }
}

/// Whether `plan` is what `update` does after reading an object at version
/// `seen` and having its function answer `decision`.
pub open spec fn planned<T, E: FnOnce(&T) -> Vec<u8>>(
    update: CasView,
    seen: Option<Seq<char>>,
    decision: Result<Option<T>, CoordError>,
    encode: E,
    plan: CasPlan<T>,
) -> bool {
    match decision {
        Err(error) => plan == CasPlan::<T>::Finished(Err(error)),
        Ok(None) => plan == CasPlan::<T>::Finished(Ok(None)),
        Ok(Some(new)) => {
            &&& plan matches CasPlan::Write(write, request)
            &&& write.update() == update
            &&& write.new_message() == new
            &&& request.key@ == update.key
            &&& request.mode@ == seen
            &&& encode.ensures((&new,), request.body)
        },
    }
}

/// Whether `plan` is what `update` does after its read gave `current`.
pub open spec fn decided<T, F, E>(
    update: CasView,
    current: Result<Option<(ObjectMeta, T)>, CoordError>,
    modify: F,
    encode: E,
    plan: CasPlan<T>,
) -> bool where
    F: FnOnce(Option<&T>) -> Result<Option<T>, CoordError>,
    E: FnOnce(&T) -> Vec<u8>,
 {
    match current {
        Err(error) => plan == CasPlan::<T>::Finished(Err(error)),
        Ok(read) => exists|decision: Result<Option<T>, CoordError>|
            modify.ensures((seen_message(&read),), decision) && #[trigger] planned(
                update,
                seen_version(read),
                decision,
                encode,
                plan,
            ),
    }
}

/// Start a read-modify-write of the object under `key`, with `max_retries`
/// retries after the first attempt.
pub fn cas_update(key: &str, max_retries: u32) -> (update: CasUpdate)
    ensures
        update@ == (CasView { key: key@, max_retries, attempts: 0 }),
{
    CasUpdate { key: key.to_owned(), max_retries, attempts: 0 }
}

impl CasUpdate {
    /// An update that is still going is within its budget.
    #[verifier::type_invariant]
    spec fn within_budget(self) -> bool {
        self.attempts <= self.max_retries
    }

    /// The key of the object to read.
    pub fn key(&self) -> (key: &str)
        ensures
            key@ == self@.key,
    {
        self.key.as_str()
    }

    /// How many writes have failed so far.
    pub fn attempts(&self) -> (attempts: u32)
        ensures
            attempts == self@.attempts,
            attempts <= self@.max_retries,
    {
        proof {
            use_type_invariant(self);
        }
        self.attempts
    }

    /// Count a failed write: the update goes on while it is within its budget.
    fn count_attempt(self) -> (counted: Result<CasUpdate, CoordError>)
        requires
            self@.attempts < u32::MAX,
        ensures
            if self@.attempts + 1 > self@.max_retries {
                counted matches Err(CoordError::RetriesExhausted { key, attempts }) && key@
                    == self@.key && attempts == self@.attempts + 1
            } else {
                counted matches Ok(next) && next@ == (CasView {
                    attempts: (self@.attempts + 1) as u32,
                    ..self@
                })
            },
    {
        let attempts: u32 = self.attempts + 1;
        if attempts > self.max_retries {
            Err(CoordError::RetriesExhausted { key: self.key, attempts })
        } else {
            Ok(CasUpdate { key: self.key, max_retries: self.max_retries, attempts })
        }
    }

    /// Decide on a write, from what was read. `modify` is given the message
    /// read, `None` if the object is absent. If it answers `Ok(None)` the
    /// update ends with `Ok(None)` and writes nothing; if it fails the update
    /// fails with its error. Otherwise its message is written with `Create` if
    /// the object was absent, or with `Update` over the version read.
    pub fn on_current<T, F, E>(
        self,
        current: Result<Option<(ObjectMeta, T)>, CoordError>,
        modify: F,
        encode: E,
    ) -> (plan: CasPlan<T>) where
        F: FnOnce(Option<&T>) -> Result<Option<T>, CoordError>,
        E: FnOnce(&T) -> Vec<u8>,

        requires
            current matches Ok(read) ==> modify.requires((seen_message(&read),)),
            forall|message: &T| encode.requires((message,)),
        ensures
            decided(self@, current, modify, encode, plan),
    {
        let read = match current {
            Err(error) => return CasPlan::Finished(Err(error)),
            Ok(read) => read,
        };
        let ghost before = read;
        let (decision, mode) = match read {
            None => (modify(None), PutMode::Create),
            Some((meta, message)) => (modify(Some(&message)), PutMode::Update(meta.version)),
        };
        let ghost answer = decision;
        assert(modify.ensures((seen_message(&before),), answer));
        let plan = match decision {
            Err(error) => CasPlan::Finished(Err(error)),
            Ok(None) => CasPlan::Finished(Ok(None)),
            Ok(Some(new)) => {
                let body = encode(&new);
                let key = self.key.clone();
                CasPlan::Write(CasWrite { update: self, new }, PutRequest { key, body, mode })
            },
        };
        assert(planned(self@, seen_version(before), answer, encode, plan));
        plan
    }

    /// Decide on a write, from the store's answer to the read: as
    /// [`CasUpdate::on_current`], with the contents of a found object passed
    /// through `decode` first.
    pub fn on_read<T, D, F, E>(
        self,
        reply: Result<Option<(ObjectMeta, Vec<u8>)>, StoreError>,
        decode: D,
        modify: F,
        encode: E,
    ) -> (plan: CasPlan<T>) where
        D: FnOnce(Vec<u8>) -> Result<T, prost::DecodeError>,
        F: FnOnce(Option<&T>) -> Result<Option<T>, CoordError>,
        E: FnOnce(&T) -> Vec<u8>,

        requires
            forall|body: Vec<u8>| decode.requires((body,)),
            forall|message: Option<&T>| modify.requires((message,)),
            forall|message: &T| encode.requires((message,)),
        ensures
            exists|current: Result<Option<(ObjectMeta, T)>, CoordError>| #[trigger]
                crate::message::fetched(reply, decode, current) && decided(self@, current, modify, encode, plan),
    {
        let current = get_message(reply, decode);
        let ghost read = current;
        let plan = self.on_current(current, modify, encode);
        assert(crate::message::fetched(reply, decode, read) && decided(self@, read, modify, encode, plan));
        plan
    }
}

impl<T> CasWrite<T> {
    /// Go on from the store's answer to the write. A write that found another
    /// version sends the caller back to the read, a transient failure does so
    /// after a pause; either way the attempt counts, and one more than
    /// `max_retries` ends the update. Any other failure ends it at once.
    pub fn on_put(self, reply: Result<ObjectMeta, StoreError>) -> (outcome: CasOutcome<T>)
        requires
            counts_as_attempt(reply) ==> self.update().attempts < u32::MAX,
        ensures
            match verdict(self.update(), reply) {
                CasVerdict::Written => outcome == CasOutcome::<T>::Finished(
                    Ok(Some((reply->Ok_0, self.new_message()))),
                ),
                CasVerdict::Reread(next) => outcome matches CasOutcome::Reread(update) && update@
                    == next,
                CasVerdict::Backoff(next, attempt) => outcome matches CasOutcome::Backoff(
                    update,
                    pause,
                ) && update@ == next && pause.attempt == attempt && pause.base@ == 5_000_000
                    && pause.cap@ == 100_000_000,
                CasVerdict::Exhausted(attempts) => outcome matches CasOutcome::Finished(
                    Err(CoordError::RetriesExhausted { key, attempts: spent }),
                ) && key@ == self.update().key && spent == attempts,
                CasVerdict::Failed(error) => outcome == CasOutcome::<T>::Finished(
                    Err(CoordError::Store(error)),
                ),
            },
    {
        let update = self.update;
        match reply {
            Ok(meta) => CasOutcome::Finished(Ok(Some((meta, self.new)))),
            Err(StoreError::PreconditionFailed { key: _, current: _ }) => {
                match update.count_attempt() {
                    Err(error) => CasOutcome::Finished(Err(error)),
                    Ok(next) => CasOutcome::Reread(next),
                }
            },
            Err(StoreError::Retryable(_)) => {
                let pause = BackoffRequest {
                    attempt: update.attempts,
                    base: Duration::from_millis(5),
                    cap: Duration::from_millis(100),
                };
                match update.count_attempt() {
                    Err(error) => CasOutcome::Finished(Err(error)),
                    Ok(next) => CasOutcome::Backoff(next, pause),
                }
            },
            Err(error) => CasOutcome::Finished(Err(CoordError::Store(error))),
        }
    }
}

} // verus!
