//! What the plain values of the library promise: versions, numerals, error texts,
//! messages read, and lease records, in terms of what is in them.

use vstd::prelude::*;

use crate::error::CoordError;
use crate::lease::Lease;
use crate::message::{get_message, get_message_if_changed};
use crate::store::{ObjectMeta, PutMode, PutRequest, StoreError, Version};
use crate::text::append_decimal;
use crate::time::{Duration, SystemTime};

verus! {

/// A version gives back the token it was made of, and so does its copy.
pub proof fn law_version_is_its_token(
    token: &str,
    version: Version,
    text: &str,
    copy: Version,
    copy_text: &str,
)
    requires
        call_ensures(Version::new, (token,), version),
        call_ensures(Version::as_str, (&version,), text),
        call_ensures(Version::clone, (&version,), copy),
        call_ensures(Version::as_str, (&copy,), copy_text),
    ensures
        text@ == token@,
        copy_text@ == token@,
        version@ == token@,
        copy@ == token@,
{
}

/// The number that a series of digits stands for.
pub open spec fn number(digits: Seq<char>) -> nat
    decreases digits.len(),
{
    if digits.len() == 0 {
        0
    } else {
        10 * number(digits.drop_last()) + (digits.last() as nat - '0' as nat) as nat
    }
}

/// Whether a series of digits is a numeral of `n`: digits only, no zero in front
/// unless it is the only one, and the right value.
pub open spec fn is_numeral(digits: Seq<char>, n: nat) -> bool {
    &&& digits.len() > 0
    &&& forall|i: int| 0 <= i < digits.len() ==> '0' <= #[trigger] digits[i] <= '9'
    &&& digits.len() > 1 ==> digits[0] != '0'
    &&& number(digits) == n
}

/// A number in decimal is its numeral.
pub proof fn law_decimal_is_the_numeral(n: nat)
    ensures
        is_numeral(crate::text::decimal(n), n),
    decreases n,
{
    let digits = crate::text::decimal(n);
    if n < 10 {
        assert(digits.drop_last() =~= Seq::empty());
        assert(number(digits.drop_last()) == 0);
    } else {
        law_decimal_is_the_numeral(n / 10);
        let front = crate::text::decimal(n / 10);
        assert(digits.drop_last() =~= front);
        assert(digits[0] == front[0]);
        if front.len() == 1 {
            assert(front.drop_last() =~= Seq::empty());
            assert(number(front.drop_last()) == 0);
            assert(number(front) == (front.last() as nat - '0' as nat) as nat);
            assert(front[0] != '0');
        }
    }
}

/// Appending a number keeps the text and adds the numeral.
pub proof fn law_number_is_appended(text: &mut String, n: u32)
    requires
        call_ensures(append_decimal, (text, n), ()),
    ensures
        exists|digits: Seq<char>|
            is_numeral(digits, n as nat) && final(text)@ == #[trigger] (old(text)@ + digits),
{
    law_decimal_is_the_numeral(n as nat);
    assert(final(text)@ == old(text)@ + crate::text::decimal(n as nat));
}

/// What every error says: each kind has its own words, the errors that wrap
/// another say what that one says, and one that counts attempts counts them in
/// decimal.
pub proof fn law_error_texts(error: CoordError, cause: &str, text: String)
    requires
        call_ensures(CoordError::message, (&error, cause), text),
    ensures
        error is Store ==> text@ == "store error: "@ + cause@,
        error is Decode ==> text@ == "protobuf decode error: "@ + cause@,
        error is Aborted ==> text@ == "operation aborted"@,
        error is LeaseLost ==> text@ == "lease lost"@,
        error matches CoordError::RetriesExhausted { key, attempts } ==> exists|digits: Seq<char>|
            {
                &&& #[trigger] is_numeral(digits, attempts as nat)
                &&& text@ == "retries exhausted on "@ + key@ + " after "@ + digits + " attempts"@
            },
        error matches CoordError::Other(words) ==> text@ == words@,
{
    if let CoordError::RetriesExhausted { key, attempts } = error {
        law_decimal_is_the_numeral(attempts as nat);
        assert(is_numeral(crate::text::decimal(attempts as nat), attempts as nat));
    }
}

/// A plain read returns what the store and the decoder make of it, case by case:
/// the store's error, absence, the message with the version that the store
/// reported, or the decoder's error. Nothing but the contents found is decoded.
pub proof fn law_message_is_what_was_decoded<T, D>(
    reply: Result<Option<(ObjectMeta, Vec<u8>)>, StoreError>,
    decode: D,
    read: Result<Option<(ObjectMeta, T)>, CoordError>,
) where D: FnOnce(Vec<u8>) -> Result<T, prost::DecodeError>
    requires
        call_ensures(get_message::<T, D>, (reply, decode), read),
    ensures
        reply matches Err(error) ==> read == Err::<Option<(ObjectMeta, T)>, CoordError>(
            CoordError::Store(error),
        ),
        reply matches Ok(None) ==> read == Ok::<Option<(ObjectMeta, T)>, CoordError>(None),
        reply matches Ok(Some((meta, body))) ==> match read {
            Ok(Some((found, message))) => found == meta && decode.ensures((body,), Ok(message)),
            Err(CoordError::Decode(error)) => decode.ensures((body,), Err(error)),
            _ => false,
        },
{
}

/// A read conditional on a version returns `Ok(None)` exactly if the object is
/// unchanged or absent, and otherwise what a plain read returns, case by case.
pub proof fn law_changed_message_is_what_was_decoded<T, D>(
    reply: Result<Option<(ObjectMeta, Vec<u8>)>, StoreError>,
    decode: D,
    read: Result<Option<(ObjectMeta, T)>, CoordError>,
) where D: FnOnce(Vec<u8>) -> Result<T, prost::DecodeError>
    requires
        call_ensures(get_message_if_changed::<T, D>, (reply, decode), read),
    ensures
        read == Ok::<Option<(ObjectMeta, T)>, CoordError>(None) <==> match reply {
            Ok(None) => true,
            Err(StoreError::NotFound { key }) => true,
            _ => false,
        },
        reply matches Err(error) ==> error is NotFound || read == Err::<
            Option<(ObjectMeta, T)>,
            CoordError,
        >(CoordError::Store(error)),
        reply matches Ok(Some((meta, body))) ==> match read {
            Ok(Some((found, message))) => found == meta && decode.ensures((body,), Ok(message)),
            Err(CoordError::Decode(error)) => decode.ensures((body,), Err(error)),
            _ => false,
        },
{
}

/// A read asks of the decoder no more than that it takes the contents found.
pub proof fn law_any_reply_can_be_read<T, D>(
    reply: Result<Option<(ObjectMeta, Vec<u8>)>, StoreError>,
    decode: D,
) where D: FnOnce(Vec<u8>) -> Result<T, prost::DecodeError>
    requires
        reply matches Ok(Some((_, body))) ==> decode.requires((body,)),
    ensures
        call_requires(get_message::<T, D>, (reply, decode)),
        call_requires(get_message_if_changed::<T, D>, (reply, decode)),
{
}

/// A lease taken says who has it, what for, since when, until when, and with
/// which epoch. Any lease can be made whose expiry is within 64 bits of seconds.
pub proof fn law_lease_says_what_it_was_made_of(
    holder: &str,
    purpose: &str,
    now: SystemTime,
    ttl: Duration,
    epoch: u64,
    lease: Lease,
)
    requires
        call_ensures(crate::lease::make_lease, (holder, purpose, now, ttl, epoch), lease),
    ensures
        lease.holder@ == holder@,
        lease.purpose@ == purpose@,
        lease.acquired_at is Some,
        lease.acquired_at->0@ == now@,
        lease.expires_at is Some,
        lease.expires_at->0@ - now@ == ttl@,
        lease.epoch == epoch,
        now@ + ttl@ < (i64::MAX + 1) * 1_000_000_000 ==> call_requires(
            crate::lease::make_lease,
            (holder, purpose, now, ttl, epoch),
        ),
{
}

/// A lease given up is no one's, was not acquired, ran out at the Unix epoch, and
/// keeps its purpose and epoch.
pub proof fn law_lease_given_up_is_no_ones(purpose: &str, epoch: u64, lease: Lease)
    requires
        call_ensures(crate::lease::released_lease, (purpose, epoch), lease),
    ensures
        lease.holder@.len() == 0,
        lease.purpose@ == purpose@,
        lease.acquired_at is None,
        lease.expires_at is Some,
        lease.expires_at->0@ == 0,
        lease.epoch == epoch,
{
}

/// Two times that may be missing are the same.
pub open spec fn equal_times(a: Option<SystemTime>, b: Option<SystemTime>) -> bool {
    match (a, b) {
        (None, None) => true,
        (Some(a), Some(b)) => a@ == b@,
        _ => false,
    }
}

/// Two leases are the same record exactly if they agree in every field; a copy
/// does.
pub proof fn law_same_lease_agrees_in_every_field(a: Lease, b: Lease, same: bool, copy: Lease)
    requires
        call_ensures(Lease::is_same, (&a, &b), same),
        call_ensures(Lease::clone, (&a,), copy),
    ensures
        same <==> a.holder@ == b.holder@ && a.purpose@ == b.purpose@ && equal_times(
            a.acquired_at,
            b.acquired_at,
        ) && equal_times(a.expires_at, b.expires_at) && a.epoch == b.epoch,
        copy == a,
{
    if same {
        assert(a@.holder == b@.holder && a@.purpose == b@.purpose && a@.epoch == b@.epoch);
        assert(a@.acquired_at == b@.acquired_at && a@.expires_at == b@.expires_at);
    }
}

/// Giving a lease up asks for the record of a lease given up, under its key, over
/// the version given and no other.
pub proof fn law_release_asks_for_a_tombstone<E: FnOnce(&Lease) -> Vec<u8>>(
    key: &str,
    purpose: &str,
    version: Version,
    epoch: u64,
    encode: E,
    request: PutRequest,
)
    requires
        call_ensures(
            crate::lease::release_lease::<E>,
            (key, purpose, version, epoch, encode),
            request,
        ),
    ensures
        request.key@ == key@,
        request.mode matches PutMode::Update(over) && over@ == version@,
        exists|lease: Lease|
            #![trigger encode.ensures((&lease,), request.body)]
            {
                &&& encode.ensures((&lease,), request.body)
                &&& lease.holder@.len() == 0
                &&& lease.purpose@ == purpose@
                &&& lease.acquired_at is None
                &&& lease.expires_at is Some && lease.expires_at->0@ == 0
                &&& lease.epoch == epoch
            },
{
    let lease = choose|lease: Lease|
        #![trigger encode.ensures((&lease,), request.body)]
        lease@ == crate::lease::tombstone(purpose@, epoch as nat) && encode.ensures(
            (&lease,),
            request.body,
        );
    assert(encode.ensures((&lease,), request.body));
    assert(lease@.holder.len() == 0 && lease@.purpose == purpose@ && lease@.epoch == epoch);
    assert(lease@.acquired_at is None && lease@.expires_at == Some(0int));
}

/// A release succeeds exactly on an answer that says the record is gone: written
/// over, at another version, or absent. Any other failure is its own.
pub proof fn law_release_succeeds_only_on_an_answer(
    reply: Result<ObjectMeta, StoreError>,
    outcome: Result<(), CoordError>,
)
    requires
        call_ensures(crate::lease::release_outcome, (reply,), outcome),
    ensures
        outcome is Ok <==> match reply {
            Ok(_) => true,
            Err(error) => error is PreconditionFailed || error is NotFound,
        },
        outcome matches Err(error) ==> reply is Err && error == CoordError::Store(reply->Err_0),
{
}

/// The clock-skew grace is two seconds.
pub proof fn law_skew_grace(grace: Duration)
    requires
        call_ensures(crate::lease::lease_skew_tolerance, (), grace),
    ensures
        grace@ == 2_000_000_000,
        crate::lease::skew_tolerance() == 2_000_000_000,
{
}

} // verus!
