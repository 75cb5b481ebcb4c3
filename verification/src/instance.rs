//! The identity of this process, by which it holds leases.

use vstd::prelude::*;
use vstd::string::StringExecFns;

use crate::text::append_decimal;

verus! {

/// What the environment says of this process.
#[derive(Debug, PartialEq, Eq)]
pub struct InstanceEnv {
    /// The explicit name of the service.
    pub name: Option<String>,
    /// The explicit instance of that name.
    pub instance: Option<String>,
    /// The name of the host.
    pub hostname: Option<String>,
    /// The number of the process.
    pub pid: u32,
}

/// Whether a setting is present and not empty.
pub open spec fn is_set(setting: Option<String>) -> bool {
    setting is Some && setting->0@.len() > 0
}

impl InstanceEnv {
    /// The identity that the environment gives, if any: name and instance where
    /// both are set, else host and process number where the host is set.
    pub open spec fn given_identity(self) -> Option<Seq<char>> {
        if is_set(self.name) && is_set(self.instance) {
            Some(self.name->0@ + "/"@ + self.instance->0@)
        } else if is_set(self.hostname) {
            Some(self.hostname->0@ + "/"@ + crate::text::decimal(self.pid as nat))
        } else {
            None
        }
    }

    /// The identity that the environment gives, if any.
    pub fn identity(&self) -> (identity: Option<String>)
        ensures
            identity is Some == self.given_identity() is Some,
            identity is Some ==> identity->0@ == self.given_identity()->0 && identity->0@.len() > 0,
    {
        if let (Some(name), Some(instance)) = (&self.name, &self.instance) {
            if !name.as_str().is_empty() && !instance.as_str().is_empty() {
                let mut id = name.clone();
                id.append("/");
                id.append(instance.as_str());
                return Some(id);
            }
        }
        if let Some(hostname) = &self.hostname {
            if !hostname.as_str().is_empty() {
                let mut id = hostname.clone();
                id.append("/");
                append_decimal(&mut id, self.pid);
                return Some(id);
            }
        }
        None
    }
}

/// A lower-case hexadecimal digit.
pub open spec fn is_hex_digit(c: char) -> bool {
    '0' <= c <= '9' || 'a' <= c <= 'f'
}

/// The text of a random (version 4) UUID: 32 lower-case hexadecimal digits in
/// groups of 8, 4, 4, 4 and 12, with the version and the variant in place.
pub open spec fn is_random_uuid(text: Seq<char>) -> bool {
    &&& text.len() == 36
    &&& forall|i: int|
        #![trigger text[i]]
        0 <= i < 36 ==> if i == 8 || i == 13 || i == 18 || i == 23 {
            text[i] == '-'
        } else {
            is_hex_digit(text[i])
        }
    &&& text[14] == '4'
    &&& (text[19] == '8' || text[19] == '9' || text[19] == 'a' || text[19] == 'b')
}

/// A fresh random UUID as text: `uuid::Uuid::new_v4`, rendered by its `Display`.
///
/// Claimed of every outcome: the hyphenated lower-case form, with version 4 and
/// the RFC variant. Which UUID comes back is chance, and nothing is claimed of
/// it. The call panics where the operating system has no random numbers.
#[verifier::external_body]
fn random_uuid() -> (text: String)
    ensures
        is_random_uuid(text@),
{
    uuid::Uuid::new_v4().to_string()
}

/// The identity of this process, once it has been worked out.
#[derive(Debug, PartialEq, Eq)]
pub struct InstanceId {
    id: Option<String>,
}

impl View for InstanceId {
    type V = Option<Seq<char>>;

    closed spec fn view(&self) -> Option<Seq<char>> {
        match self.id {
            Some(id) => Some(id@),
            None => None,
        }
    }
}

impl InstanceId {
    /// An identity is never empty.
    #[verifier::type_invariant]
    spec fn not_empty(self) -> bool {
        self.id is Some ==> self.id->0@.len() > 0
    }

    /// No identity has been worked out yet.
    pub fn unknown() -> (cell: InstanceId)
        ensures
            cell@ is None,
    {
        InstanceId { id: None }
    }
}

/// A process-stable identity: explicit name and instance, else host and process
/// number, else a random UUID. Worked out on the first call and kept in `cell`;
/// every later call returns the same, whatever the environment says by then.
pub fn instance_id(cell: &mut InstanceId, env: &InstanceEnv) -> (id: String)
    ensures
        final(cell)@ == Some(id@),
        id@.len() > 0,
        match old(cell)@ {
            Some(known) => id@ == known,
            None => match env.given_identity() {
                Some(identity) => id@ == identity,
                None => is_random_uuid(id@),
            },
        },
{
    proof {
        use_type_invariant(&*cell);
    }
    if let Some(known) = &cell.id {
        return known.clone();
    }
    let id = match env.identity() {
        Some(identity) => identity,
        None => random_uuid(),
    };
    cell.id = Some(id.clone());
    id
}

} // verus!
