//! What the identity of a process is, in terms of what its environment says.

use vstd::prelude::*;

use crate::instance::{instance_id, InstanceEnv, InstanceId};

verus! {

/// The identity that the environment gives, case by case. Where name and instance
/// are both there and not empty, it is the two with a slash between them. In
/// every other case, whichever of the two is missing or empty, it is the host and
/// the process number with a slash between them if the host is there and not
/// empty, and there is none if it is not.
pub proof fn law_identity_by_environment(env: InstanceEnv, identity: Option<String>)
    requires
        call_ensures(InstanceEnv::identity, (&env,), identity),
    ensures
        ({
            let named = env.name is Some && env.name->0@.len() > 0 && env.instance is Some
                && env.instance->0@.len() > 0;
            let hosted = env.hostname is Some && env.hostname->0@.len() > 0;
            &&& named ==> identity is Some && identity->0@ == env.name->0@ + "/"@
                + env.instance->0@
            &&& !named && hosted ==> {
                &&& identity is Some
                &&& exists|digits: Seq<char>|
                    {
                        &&& #[trigger] crate::value_laws::is_numeral(digits, env.pid as nat)
                        &&& identity->0@ == env.hostname->0@ + "/"@ + digits
                    }
            }
            &&& !named && !hosted ==> identity is None
        }),
{
    crate::value_laws::law_decimal_is_the_numeral(env.pid as nat);
    assert(crate::value_laws::is_numeral(
        crate::text::decimal(env.pid as nat),
        env.pid as nat,
    ));
}

/// The first identity asked for is the one that the environment gives, if it
/// gives one, and otherwise one with the form of a random UUID: hexadecimal
/// digits in groups of 8, 4, 4, 4 and 12.
pub proof fn law_first_identity(
    cell: &mut InstanceId,
    env: InstanceEnv,
    given: Option<String>,
    id: String,
)
    requires
        call_ensures(InstanceId::unknown, (), *old(cell)),
        call_ensures(InstanceEnv::identity, (&env,), given),
        call_ensures(instance_id, (cell, &env), id),
    ensures
        given is Some ==> id@ == given->0@,
        given is None ==> {
            &&& id@.len() == 36
            &&& id@[8] == '-' && id@[13] == '-' && id@[18] == '-' && id@[23] == '-'
            &&& forall|i: int|
                0 <= i < 36 && i != 8 && i != 13 && i != 18 && i != 23 ==> {
                    let c = #[trigger] id@[i];
                    '0' <= c <= '9' || 'a' <= c <= 'f'
                }
        },
        id@.len() > 0,
{
    assert(id@.len() > 0);
    assert(given is None ==> crate::instance::is_random_uuid(id@));
}

/// An identity is stable: whatever the environment says by then, every call after
/// the first returns what the first returned.
pub proof fn law_identity_is_stable(
    first: &mut InstanceId,
    env: InstanceEnv,
    id: String,
    second: &mut InstanceId,
    env_then: InstanceEnv,
    id_then: String,
)
    requires
        call_ensures(instance_id, (first, &env), id),
        *old(second) == *final(first),
        call_ensures(instance_id, (second, &env_then), id_then),
    ensures
        id_then@ == id@,
        final(second)@ == final(first)@,
{
}

} // verus!
