//! What each step of an update answers, in terms of what the store, the codec and
//! the caller's function gave it.

use vstd::prelude::*;

use crate::cas::{cas_update, CasOutcome, CasPlan, CasUpdate, CasWrite};
use crate::error::CoordError;
use crate::store::{ObjectMeta, PutMode, PutRequest, StoreError};

verus! {

/// An update starts with the key and the budget it was given, and no failure.
pub proof fn law_update_starts_afresh(
    key: &str,
    max_retries: u32,
    update: CasUpdate,
    key_back: &str,
    attempts: u32,
)
    requires
        call_ensures(cas_update, (key, max_retries), update),
        call_ensures(CasUpdate::key, (&update,), key_back),
        call_ensures(CasUpdate::attempts, (&update,), attempts),
    ensures
        key_back@ == key@,
        attempts == 0,
        update@.key == key@,
        update@.max_retries == max_retries,
        update@.attempts == 0,
{
}

/// An update that is going on tells its own key, and how many of its writes have
/// failed, which is within its budget.
pub proof fn law_update_tells_its_state(update: CasUpdate, key: &str, attempts: u32)
    requires
        call_ensures(CasUpdate::key, (&update,), key),
        call_ensures(CasUpdate::attempts, (&update,), attempts),
    ensures
        key@ == update@.key,
        attempts == update@.attempts,
        attempts <= update@.max_retries,
{
}

/// Whether a write goes by what was read: it demands absence if the object was
/// absent, and otherwise the version read.
pub open spec fn goes_by<T>(mode: PutMode, read: Option<(ObjectMeta, T)>) -> bool {
    match read {
        None => mode == PutMode::Create,
        Some((meta, _)) => mode matches PutMode::Update(version) && version@ == meta.version@,
    }
}

/// An update whose read succeeded goes by what its function answered to the
/// message read, `None` if the object was absent, and by nothing else. It ends
/// with `Ok(None)` only if the function answered that, and with an error only if
/// the function failed with that very error; it never ends with a message. A
/// write is of the message the function answered, encoded, under the update's
/// own key, over the version read. An update whose read failed ends with that
/// error.
pub proof fn law_update_goes_by_its_function<T, F, E>(
    update: CasUpdate,
    current: Result<Option<(ObjectMeta, T)>, CoordError>,
    modify: F,
    encode: E,
    plan: CasPlan<T>,
) where F: FnOnce(Option<&T>) -> Result<Option<T>, CoordError>, E: FnOnce(&T) -> Vec<u8>
    requires
        call_ensures(
            CasUpdate::on_current::<T, F, E>,
            (update, current, modify, encode),
            plan,
        ),
    ensures
        current matches Err(error) ==> plan == CasPlan::<T>::Finished(Err(error)),
        current matches Ok(None) ==> match plan {
            CasPlan::Finished(Ok(None)) => modify.ensures((None,), Ok(None)),
            CasPlan::Finished(Ok(Some(_))) => false,
            CasPlan::Finished(Err(error)) => modify.ensures((None,), Err(error)),
            CasPlan::Write(write, request) => modify.ensures(
                (None,),
                Ok(Some(write.new_message())),
            ),
        },
        current matches Ok(Some((_, message))) ==> match plan {
            CasPlan::Finished(Ok(None)) => modify.ensures((Some(&message),), Ok(None)),
            CasPlan::Finished(Ok(Some(_))) => false,
            CasPlan::Finished(Err(error)) => modify.ensures((Some(&message),), Err(error)),
            CasPlan::Write(write, request) => modify.ensures(
                (Some(&message),),
                Ok(Some(write.new_message())),
            ),
        },
        plan matches CasPlan::Write(write, request) ==> {
            &&& current is Ok
            &&& goes_by(request.mode, current->Ok_0)
            &&& request.key@ == update@.key
            &&& encode.ensures((&write.new_message(),), request.body)
            &&& write.update().key == update@.key
            &&& write.update().max_retries == update@.max_retries
            &&& write.update().attempts == update@.attempts
        },
{
}

/// A function's refusal is the update's: if on what was read the caller's
/// function can only fail with `error`, the update ends with that error, be the
/// object present or absent. Likewise a function that can only answer `Ok(None)`
/// ends it with `Ok(None)`, and one that can only answer with a message has that
/// message written.
pub proof fn law_functions_answer_is_the_updates<T, F, E>(
    update: CasUpdate,
    current: Result<Option<(ObjectMeta, T)>, CoordError>,
    modify: F,
    encode: E,
    plan: CasPlan<T>,
    answer: Result<Option<T>, CoordError>,
) where F: FnOnce(Option<&T>) -> Result<Option<T>, CoordError>, E: FnOnce(&T) -> Vec<u8>
    requires
        call_ensures(
            CasUpdate::on_current::<T, F, E>,
            (update, current, modify, encode),
            plan,
        ),
        current is Ok,
        forall|message: Option<&T>, given: Result<Option<T>, CoordError>| #[trigger]
            modify.ensures((message,), given) ==> given == answer,
    ensures
        match answer {
            Err(error) => plan == CasPlan::<T>::Finished(Err(error)),
            Ok(None) => plan == CasPlan::<T>::Finished(Ok(None)),
            Ok(Some(message)) => plan matches CasPlan::Write(write, request)
                && write.new_message() == message,
        },
{
}

/// An update that reads raw contents goes by what the decoder makes of them: it
/// ends with the store's error or the decoder's, and otherwise does with the
/// message decoded, or with absence, what it does with a message read.
pub proof fn law_update_goes_by_what_was_decoded<T, D, F, E>(
    update: CasUpdate,
    reply: Result<Option<(ObjectMeta, Vec<u8>)>, StoreError>,
    decode: D,
    modify: F,
    encode: E,
    plan: CasPlan<T>,
) where
    D: FnOnce(Vec<u8>) -> Result<T, prost::DecodeError>,
    F: FnOnce(Option<&T>) -> Result<Option<T>, CoordError>,
    E: FnOnce(&T) -> Vec<u8>,

    requires
        call_ensures(
            CasUpdate::on_read::<T, D, F, E>,
            (update, reply, decode, modify, encode),
            plan,
        ),
    ensures
        reply matches Err(error) ==> plan == CasPlan::<T>::Finished(Err(CoordError::Store(error))),
        reply matches Ok(None) ==> match plan {
            CasPlan::Finished(Ok(None)) => modify.ensures((None,), Ok(None)),
            CasPlan::Finished(Ok(Some(_))) => false,
            CasPlan::Finished(Err(error)) => modify.ensures((None,), Err(error)),
            CasPlan::Write(write, request) => modify.ensures(
                (None,),
                Ok(Some(write.new_message())),
            ) && request.mode == PutMode::Create,
        },
        reply matches Ok(Some((meta, body))) ==> {
            ||| plan matches CasPlan::Finished(Err(CoordError::Decode(error))) && decode.ensures(
                (body,),
                Err(error),
            )
            ||| exists|message: T|
                {
                    &&& #[trigger] decode.ensures((body,), Ok(message))
                    &&& match plan {
                        CasPlan::Finished(Ok(None)) => modify.ensures((Some(&message),), Ok(None)),
                        CasPlan::Finished(Ok(Some(_))) => false,
                        CasPlan::Finished(Err(error)) => modify.ensures(
                            (Some(&message),),
                            Err(error),
                        ),
                        CasPlan::Write(write, request) => {
                            &&& modify.ensures((Some(&message),), Ok(Some(write.new_message())))
                            &&& request.mode matches PutMode::Update(version)
                            &&& version@ == meta.version@
                        },
                    }
                }
        },
        plan matches CasPlan::Write(write, request) ==> {
            &&& request.key@ == update@.key
            &&& encode.ensures((&write.new_message(),), request.body)
            &&& write.update().key == update@.key
            &&& write.update().max_retries == update@.max_retries
            &&& write.update().attempts == update@.attempts
        },
{
    let current = choose|current: Result<Option<(ObjectMeta, T)>, CoordError>| #[trigger]
        crate::message::fetched(reply, decode, current) && crate::cas::decided(
            update@,
            current,
            modify,
            encode,
            plan,
        );
    if let Ok(Some((meta, body))) = reply {
        if let Ok(Some((_, message))) = current {
            assert(decode.ensures((body,), Ok(message)));
        }
    }
}

/// The answer to a write decides, case by case. A write that was made ends the
/// update with its version and message. After a collision or a transient failure
/// the failures are one more; while they are within the budget the update goes
/// on, after a transient failure with a pause that starts from the number of
/// earlier failures, and otherwise it ends and tells them. Any other failure
/// ends it at once.
pub proof fn law_update_goes_by_the_answer<T>(
    write: CasWrite<T>,
    reply: Result<ObjectMeta, StoreError>,
    outcome: CasOutcome<T>,
)
    requires
        call_ensures(CasWrite::<T>::on_put, (write, reply), outcome),
    ensures
        reply matches Ok(meta) ==> outcome == CasOutcome::<T>::Finished(
            Ok(Some((meta, write.new_message()))),
        ),
        reply matches Err(error) ==> {
            let before = write.update();
            let counted = error is PreconditionFailed || error is Retryable;
            match outcome {
                CasOutcome::Reread(next) => {
                    &&& error is PreconditionFailed
                    &&& before.attempts < before.max_retries
                    &&& next@.attempts - before.attempts == 1
                    &&& next@.key == before.key
                    &&& next@.max_retries == before.max_retries
                },
                CasOutcome::Backoff(next, pause) => {
                    &&& error is Retryable
                    &&& before.attempts < before.max_retries
                    &&& next@.attempts - before.attempts == 1
                    &&& next@.key == before.key
                    &&& next@.max_retries == before.max_retries
                    &&& pause.attempt == before.attempts
                    &&& pause.base@ == 5_000_000
                    &&& pause.cap@ == 100_000_000
                },
                CasOutcome::Finished(Err(CoordError::RetriesExhausted { key, attempts })) => {
                    &&& counted
                    &&& before.attempts >= before.max_retries
                    &&& key@ == before.key
                    &&& attempts - before.attempts == 1
                },
                CasOutcome::Finished(Err(CoordError::Store(told))) => !counted && told == error,
                _ => false,
            }
        },
{
}

/// Every answer can be taken while the failures can be counted, and every read
/// while the function and the codec take what they are given.
pub proof fn law_every_answer_can_be_taken<T, F, E>(
    update: CasUpdate,
    modify: F,
    encode: E,
    current: Result<Option<(ObjectMeta, T)>, CoordError>,
    write: CasWrite<T>,
    reply: Result<ObjectMeta, StoreError>,
) where F: FnOnce(Option<&T>) -> Result<Option<T>, CoordError>, E: FnOnce(&T) -> Vec<u8>
    requires
        forall|message: Option<&T>| modify.requires((message,)),
        forall|message: &T| encode.requires((message,)),
        reply is Ok || write.update().attempts < u32::MAX,
    ensures
        call_requires(CasUpdate::on_current::<T, F, E>, (update, current, modify, encode)),
        call_requires(CasWrite::<T>::on_put, (write, reply)),
{
}

/// One whole attempt of an update, from the state it started in: if its write
/// collides or fails transiently, and it goes on, it goes on with the same key
/// and budget and one failure more.
pub proof fn law_attempt_counts_once<T, F, E>(
    update: CasUpdate,
    current: Result<Option<(ObjectMeta, T)>, CoordError>,
    modify: F,
    encode: E,
    write: CasWrite<T>,
    request: PutRequest,
    reply: Result<ObjectMeta, StoreError>,
    outcome: CasOutcome<T>,
    next: CasUpdate,
    attempts: u32,
    attempts_then: u32,
) where F: FnOnce(Option<&T>) -> Result<Option<T>, CoordError>, E: FnOnce(&T) -> Vec<u8>
    requires
        call_ensures(CasUpdate::attempts, (&update,), attempts),
        call_ensures(
            CasUpdate::on_current::<T, F, E>,
            (update, current, modify, encode),
            CasPlan::Write(write, request),
        ),
        call_ensures(CasWrite::<T>::on_put, (write, reply), outcome),
        match outcome {
            CasOutcome::Reread(again) => next == again,
            CasOutcome::Backoff(again, _) => next == again,
            CasOutcome::Finished(_) => false,
        },
        call_ensures(CasUpdate::attempts, (&next,), attempts_then),
    ensures
        attempts_then == attempts + 1,
        attempts_then <= update@.max_retries,
        next@.key == update@.key,
        next@.max_retries == update@.max_retries,
{
}

} // verus!
