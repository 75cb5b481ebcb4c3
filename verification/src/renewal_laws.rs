//! What renewing a lease, and waiting for one, promise from start to end.

use vstd::prelude::*;

use crate::error::CoordError;
use crate::guard::{GuardView, RenewalView};
use crate::store::{ObjectMeta, StoreError};

verus! {

/// One round of a renewal: when the clock was looked at, and, if that led to a
/// heartbeat, when it was sent and what the store answered.
pub struct Round {
    pub checked_at: int,
    pub sent_at: int,
    pub reply: Result<ObjectMeta, StoreError>,
}

/// How a renewal that goes through `rounds` ends, and with which guard; `None`
/// if it is not over after the last of them.
pub open spec fn renewed(guard: GuardView, renewal: RenewalView, rounds: Seq<Round>) -> Option<
    (GuardView, Result<bool, CoordError>),
>
    decreases rounds.len(),
{
    if rounds.len() == 0 {
        None
    } else {
        let round = rounds[0];
        if guard.usable(round.checked_at, renewal.margin) {
            Some((guard, Ok(true)))
        } else if renewal.heartbeats_left == 0 {
            Some((guard, Ok(false)))
        } else {
            let after = guard.after_heartbeat(round.sent_at, renewal.ttl, round.reply);
            match crate::guard::heartbeat_outcome(round.reply) {
                Ok(_) => renewed(after, renewal.one_less(), rounds.drop_first()),
                Err(CoordError::LeaseLost) => Some((after, Ok(false))),
                Err(error) => Some((after, Err(error))),
            }
        }
    }
}

/// A renewal comes to an end: it looks at the clock at most once more than it
/// may send heartbeats.
pub proof fn law_renewal_ends(guard: GuardView, renewal: RenewalView, rounds: Seq<Round>)
    requires
        rounds.len() > renewal.heartbeats_left,
    ensures
        renewed(guard, renewal, rounds) is Some,
    decreases rounds.len(),
{
    let round = rounds[0];
    if renewal.heartbeats_left > 0 {
        let after = guard.after_heartbeat(round.sent_at, renewal.ttl, round.reply);
        law_renewal_ends(after, renewal.one_less(), rounds.drop_first());
    }
}

/// When the lease runs out as a guard knows it at the look `i`: by the heartbeat
/// sent in the round before, or, at the first look, as it knew at first.
pub open spec fn expiry_at(first: int, ttl: int, rounds: Seq<Round>, i: int) -> int {
    if i == 0 {
        first
    } else {
        rounds[i - 1].sent_at + ttl
    }
}

/// Whether a renewal comes to the look `i`: at every look before, no more than
/// the margin was left, and the heartbeat then sent was written.
pub open spec fn comes_to(first: int, ttl: int, margin: int, rounds: Seq<Round>, i: int) -> bool {
    forall|j: int|
        0 <= j < i ==> {
            &&& expiry_at(first, ttl, rounds, j) <= (#[trigger] rounds[j]).checked_at + margin
            &&& rounds[j].reply is Ok
        }
}

/// What a renewal answers at each look that it comes to: `true` exactly if the
/// expiry known then is later than the clock by more than the margin, whatever
/// else is so of the guard. Otherwise, with no heartbeat left, `false`; and if a
/// heartbeat is sent, its collision gives `false` and any other failure that
/// failure. The guard that comes out has the expiry known at that look, and the
/// fencing token it had at first.
pub proof fn law_renewal_answers(guard: GuardView, renewal: RenewalView, rounds: Seq<Round>, i: int)
    requires
        0 <= i < rounds.len(),
        i <= renewal.heartbeats_left,
        comes_to(guard.expires_at, renewal.ttl, renewal.margin, rounds, i),
    ensures
        ({
            let expiry = expiry_at(guard.expires_at, renewal.ttl, rounds, i);
            let ends = renewed(guard, renewal, rounds);
            let (after, outcome) = ends->0;
            let usable = expiry > rounds[i].checked_at + renewal.margin;
            &&& usable || i == renewal.heartbeats_left || rounds[i].reply is Err ==> {
                &&& ends is Some
                &&& after.expires_at == expiry
                &&& after.fence_token == guard.fence_token
            }
            &&& usable ==> outcome == Ok::<bool, CoordError>(true)
            &&& !usable && i == renewal.heartbeats_left ==> outcome == Ok::<bool, CoordError>(false)
            &&& !usable && i < renewal.heartbeats_left ==> (rounds[i].reply matches Err(error)
                ==> outcome == if error is PreconditionFailed {
                Ok::<bool, CoordError>(false)
            } else {
                Err::<bool, CoordError>(CoordError::Store(error))
            })
        }),
    decreases i,
{
    if i > 0 {
        let round = rounds[0];
        assert(expiry_at(guard.expires_at, renewal.ttl, rounds, 0) == guard.expires_at);
        assert(guard.expires_at <= rounds[0].checked_at + renewal.margin && rounds[0].reply is Ok);
        let sent = guard.after_heartbeat(round.sent_at, renewal.ttl, round.reply);
        let rest = rounds.drop_first();
        assert forall|j: int| 0 <= j < i - 1 implies {
            &&& expiry_at(sent.expires_at, renewal.ttl, rest, j) <= (#[trigger] rest[j]).checked_at
                + renewal.margin
            &&& rest[j].reply is Ok
        } by {
            assert(rest[j] == rounds[j + 1]);
            if j > 0 {
                assert(rest[j - 1] == rounds[j]);
            }
        }
        law_renewal_answers(sent, renewal.one_less(), rest, i - 1);
        assert(rest[i - 1] == rounds[i]);
        if i > 1 {
            assert(rest[i - 2] == rounds[i - 1]);
        }
    }
}

/// A renewal reports the lease usable only on a look at the clock that found it
/// so, after every heartbeat it sent: the answer is `true` only if, when the
/// clock was last looked at, the expiry of the guard that comes out was later by
/// more than the margin. The fencing token is the same throughout.
pub proof fn law_renewal_confirms(guard: GuardView, renewal: RenewalView, rounds: Seq<Round>)
    ensures
        renewed(guard, renewal, rounds) matches Some((after, outcome)) ==> {
            &&& after.fence_token == guard.fence_token
            &&& outcome == Ok::<bool, CoordError>(true) ==> exists|i: int|
                0 <= i < rounds.len() && i <= renewal.heartbeats_left && after.expires_at
                    > (#[trigger] rounds[i]).checked_at + renewal.margin && after.epoch
                    == guard.epoch + i
        },
    decreases rounds.len(),
{
    if rounds.len() > 0 {
        let round = rounds[0];
        if guard.usable(round.checked_at, renewal.margin) {
            assert(rounds[0] == round);
        } else if renewal.heartbeats_left > 0 {
            let sent = guard.after_heartbeat(round.sent_at, renewal.ttl, round.reply);
            let rest = rounds.drop_first();
            law_renewal_confirms(sent, renewal.one_less(), rest);
            if let Some((after, outcome)) = renewed(guard, renewal, rounds) {
                if outcome == Ok::<bool, CoordError>(true) {
                    let i = choose|i: int|
                        0 <= i < rest.len() && i <= renewal.one_less().heartbeats_left
                            && after.expires_at > (#[trigger] rest[i]).checked_at + renewal.margin
                            && after.epoch == sent.epoch + i;
                    assert(rounds[i + 1] == rest[i]);
                }
            }
        }
    }
}

/// A heartbeat whose answer comes too late does not make the lease usable: if
/// the lease is not usable to begin with, and every heartbeat's new expiry is
/// already within the margin when the clock is looked at next, the renewal ends
/// without reporting it usable.
pub proof fn law_late_answers_do_not_count(
    guard: GuardView,
    renewal: RenewalView,
    rounds: Seq<Round>,
)
    requires
        rounds.len() > 0 ==> !guard.usable(rounds[0].checked_at, renewal.margin),
        forall|i: int, j: int|
            0 <= i && j == i + 1 && j < rounds.len() ==> (#[trigger] rounds[i]).sent_at + renewal.ttl
                <= (#[trigger] rounds[j]).checked_at + renewal.margin,
    ensures
        renewed(guard, renewal, rounds) matches Some((after, outcome)) ==> outcome != Ok::<
            bool,
            CoordError,
        >(true),
    decreases rounds.len(),
{
    if rounds.len() > 0 && renewal.heartbeats_left > 0 {
        let round = rounds[0];
        let sent = guard.after_heartbeat(round.sent_at, renewal.ttl, round.reply);
        let rest = rounds.drop_first();
        if rest.len() > 0 && round.reply is Ok {
            assert(rounds[0].sent_at + renewal.ttl <= rounds[1].checked_at + renewal.margin);
        }
        assert forall|i: int, j: int| 0 <= i && j == i + 1 && j < rest.len() implies {
            (#[trigger] rest[i]).sent_at + renewal.ttl <= (#[trigger] rest[j]).checked_at
                + renewal.margin
        } by {
            assert(rest[i] == rounds[i + 1]);
            assert(rest[j] == rounds[j + 1]);
        }
        if round.reply is Ok {
            law_late_answers_do_not_count(sent, renewal.one_less(), rest);
        }
    }
}

/// Waiting for a lease never sleeps past its deadline, and never longer than the
/// pause that was drawn.
pub proof fn law_sleeps_end_by_the_deadline(deadline: int, now: int, drawn: int)
    requires
        now < deadline,
        drawn >= 0,
    ensures
        now <= now + crate::acquire::sleep_length(drawn, deadline - now) <= deadline,
        crate::acquire::sleep_length(drawn, deadline - now) <= drawn,
{
}

} // verus!
