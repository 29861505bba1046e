//! The secret exponent that stands for a password: the 64-bit value that the
//! standard library's default hasher gives for the password's text.

use std::collections::hash_map::DefaultHasher;
use std::hash::Hash;
use std::hash::Hasher;
use vstd::prelude::*;
use vstd::std_specs::hash::DefaultHasherAdditionalSpecFns;

verus! {

/// The writes by which `str`'s `Hash` impl feeds `text` to a hasher.
pub uninterp spec fn str_hash_writes(text: Seq<char>) -> Seq<Seq<u8>>;

/// The secret exponent of `password`: what a fresh default hasher returns
/// after the password has been hashed into it.
pub open spec fn password_exponent(password: Seq<char>) -> u64 {
    DefaultHasher::spec_finish(str_hash_writes(password))
}

/// `Hash::hash` of `str`: it extends what the hasher was fed so far by writes
/// that depend on the text alone.
#[verifier::external_body]
fn hash_str(text: &str, state: &mut DefaultHasher)
    ensures
        final(state)@ == old(state)@ + str_hash_writes(text@),
{
    text.hash(state)
}

/// Computes the secret exponent of `password`.
pub fn hash_password(password: &str) -> (x: u64)
    ensures
        x == password_exponent(password@),
{
    let mut hasher = DefaultHasher::new();
    hash_str(password, &mut hasher);
    assert(hasher@ =~= str_hash_writes(password@));
    hasher.finish()
}

} // verus!
