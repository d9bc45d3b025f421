//! ## Program addresses
//!
//! Accounts owned by this program live at addresses derived from seeds: a
//! SHA-256 hash of the seeds, the program id and a marker, accepted only when
//! it falls off the ed25519 curve. The derivation is the runtime library's;
//! here it has a name, and the program's checks are stated over that name.

use vstd::prelude::*;

use crate::keys::Key;

verus! {

/// The error type of address derivation.
#[verifier::external_type_specification]
#[verifier::external_body]
pub struct ExPubkeyError(solana_program::pubkey::PubkeyError);

/// The address `Pubkey::create_program_address` derives from `seeds` (the
/// bump included) and `program_id`, or `None` when it refuses them: too many
/// or too long seeds, or a hash on the curve.
pub uninterp spec fn created_program_address(seeds: Seq<Seq<u8>>, program_id: Seq<u8>) -> Option<Seq<u8>>;

/// The address and bump `Pubkey::try_find_program_address` finds for `seeds`
/// and `program_id`, searching the bump from 255 down; `None` when no bump
/// works or the seeds are too many or too long.
pub uninterp spec fn program_address(seeds: Seq<Seq<u8>>, program_id: Seq<u8>) -> Option<(Seq<u8>, u8)>;

/// Calls `Pubkey::create_program_address`. The contract claims only that the
/// outcome is `created_program_address` of the arguments; which error it
/// returns on refusal is left unsaid.
#[verifier::external_body]
pub(crate) fn create_program_address(seeds: &Vec<Vec<u8>>, program_id: &Key) -> (r: Result<
    Key,
    solana_program::pubkey::PubkeyError,
>)
    ensures
        r is Ok <==> created_program_address(seeds.deep_view(), program_id@) is Some,
        r matches Ok(k) ==> created_program_address(seeds.deep_view(), program_id@) == Some(k@),
{
    let mut refs: Vec<&[u8]> = Vec::new();
    for s in seeds.iter() {
        refs.push(s.as_slice());
    }
    let id = solana_program::pubkey::Pubkey::new_from_array(*program_id);
    match solana_program::pubkey::Pubkey::create_program_address(&refs, &id) {
        Ok(k) => Ok(k.to_bytes()),
        Err(e) => Err(e),
    }
}

/// Calls `Pubkey::try_find_program_address`. The contract claims that the
/// outcome is `program_address` of the arguments; that a found address and
/// bump are what `create_program_address` gives for the seeds with the bump
/// appended (the search tries exactly that); and that with 16 or more seeds,
/// or a seed over 32 bytes, nothing is found (every try is refused for its
/// length).
#[verifier::external_body]
pub(crate) fn try_find_program_address(seeds: &Vec<Vec<u8>>, program_id: &Key) -> (r: Option<
    (Key, u8),
>)
    ensures
        program_address(seeds.deep_view(), program_id@) == match r {
            Some((k, b)) => Some((k@, b)),
            None => None::<(Seq<u8>, u8)>,
        },
        r matches Some((k, b)) ==> created_program_address(
            seeds.deep_view().push(seq![b]),
            program_id@,
        ) == Some(k@),
        (seeds@.len() >= 16 || exists|i: int| 0 <= i < seeds@.len() && seeds@[i]@.len() > 32)
            ==> r is None,
{
    let mut refs: Vec<&[u8]> = Vec::new();
    for s in seeds.iter() {
        refs.push(s.as_slice());
    }
    let id = solana_program::pubkey::Pubkey::new_from_array(*program_id);
    match solana_program::pubkey::Pubkey::try_find_program_address(&refs, &id) {
        Some((k, b)) => Some((k.to_bytes(), b)),
        None => None,
    }
}

/// Does `seeds` derive exactly `expected` under `program_id`?
pub open spec fn derives(seeds: Seq<Seq<u8>>, program_id: Key, expected: Key) -> bool {
    created_program_address(seeds, program_id@) == Some(expected@)
}

/// Checks that `seeds` derive `expected` under `program_id`.
pub fn check_derives(seeds: &Vec<Vec<u8>>, program_id: &Key, expected: &Key) -> (r: bool)
    ensures
        r == derives(seeds.deep_view(), *program_id, *expected),
{
    match create_program_address(seeds, program_id) {
        Ok(k) => crate::keys::key_eq(&k, expected),
        Err(_) => false,
    }
}

} // verus!
