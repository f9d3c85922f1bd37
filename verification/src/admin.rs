//! The administrative command that issues a credential.

use vstd::prelude::*;
use crate::store::{Store, StoreFailure};
use crate::text::opt_text;

verus! {

/// `uuid::Uuid::new_v4` written out by `to_string`: a random identifier in
/// its hyphenated form of 36 characters. Which identifier it is depends on
/// chance, and nothing is claimed of that. The call fails, and does not
/// return, where the system cannot supply randomness.
#[verifier::external_body]
fn random_secret() -> (secret: String)
    ensures
        secret@.len() == 36,
{
    uuid::Uuid::new_v4().to_string()
}

/// The secret of a new credential: the one asked for, or else the generated one.
pub open spec fn chosen_secret(key: Option<Seq<char>>, generated: Seq<char>) -> Seq<char> {
    match key {
        Some(k) => k,
        None => generated,
    }
}

/// Picks the secret of a new credential: the key that was asked for, or
/// the generated one where none was.
pub fn secret_or(key: Option<String>, generated: String) -> (secret: String)
    ensures
        secret@ == chosen_secret(opt_text(key), generated@),
{
    match key {
        Some(k) => k,
        None => generated,
    }
}

/// Whether a text can be the secret of a new credential for which `key`
/// was asked: the key itself, or any text of 36 characters where none was.
pub open spec fn is_secret_for(key: Option<String>, secret: Seq<char>) -> bool {
    match key {
        Some(k) => secret == k@,
        None => secret.len() == 36,
    }
}

/// The secret of a new credential: the key that was asked for, or a random
/// identifier of 36 characters where none was.
pub fn new_secret(key: Option<String>) -> (secret: String)
    ensures
        is_secret_for(key, secret@),
{
    match key {
        Some(k) => k,
        None => random_secret(),
    }
}

/// Issues a credential under the identity `id` and returns its secret: the
/// key that was asked for, or a random identifier. It fails only where the
/// store refuses the secret it came to, because the secret or the identity
/// is taken; the store then stays as it is.
pub fn create_api_key(store: &mut Store, id: u128, description: &str, key: Option<String>) -> (r:
    Result<String, StoreFailure>)
    requires
        old(store)@.wf(),
    ensures
        final(store)@.wf(),
        match r {
            Ok(secret) => {
                &&& is_secret_for(key, secret@)
                &&& (final(store)@, Ok::<(), StoreFailure>(())) == old(store)@.add_credential(
                    id,
                    secret@,
                    description@,
                )
            },
            Err(failure) => {
                &&& final(store)@ == old(store)@
                &&& failure == StoreFailure::Constraint
                &&& exists|secret: Seq<char>|
                    is_secret_for(key, secret) && (#[trigger] old(store)@.add_credential(
                        id,
                        secret,
                        description@,
                    )).1 is Err
            },
        },
{
    let secret = new_secret(key);
    match store.create_credential(id, secret.as_str(), description) {
        Ok(_) => Ok(secret),
        Err(failure) => {
            assert(is_secret_for(key, secret@) && old(store)@.add_credential(
                id,
                secret@,
                description@,
            ).1 is Err);
            Err(failure)
        },
    }
}

} // verus!
