//! ## Balance-delta guard over an arbitrary call
//!
//! The first form of the guard: read the vault token balance, make whatever
//! call the caller asked for as the vault, read the balance again, and reject
//! if the drop exceeds the cap. Returning an error reverts the call
//! atomically, so measuring after the fact is safe.
//!
//! Instruction data: `[0..8]` the spend cap (u64 LE), `[8..]` the opaque data
//! forwarded to the target program.
//!
//! Accounts: 0 the vault authority (an address of this program, signing only
//! through its seeds), 1 the vault token account (the one account metered),
//! 2 the target program, 3.. the accounts forwarded to the target.

use vstd::prelude::*;

use crate::guard::{
    AccountView, Snapshot, amount_field, authority_fingerprint, fingerprint_bytes, owner_field,
    read_u64_le, scope_siblings_from, fingerprint_eq, sibling_positions, snapshot_of, TOKEN_ACCOUNT_LEN,
    FINGERPRINT_LEN,
};
use crate::keys::{Key, key_eq, key_from_slice};
use crate::pda::{program_address, try_find_program_address};
use crate::program::{CpiAccountMeta, metas_for};
use crate::state::{Vault, vault_seed_bytes};

verus! {

/// The runtime's program errors that this guard returns.
#[derive(Debug, Clone, Copy, PartialEq, Eq, Structural)]
pub enum ProgramError {
    InvalidInstructionData,
    NotEnoughAccountKeys,
    InvalidSeeds,
    IllegalOwner,
    InvalidAccountData,
    /// 1: spend over the cap; 2: an authority field changed; 3: an unmetered
    /// vault holding fell.
    Custom(u32),
}

/// The seeds of the guard's vault authority: `[b"vault"]`.
pub open spec fn vault_authority_seeds() -> Seq<Seq<u8>> {
    seq![vault_seed_bytes()]
}

/// The token account owner, read from an account at least 72 bytes long.
fn token_owner(ai: &AccountView) -> (r: Result<Key, ProgramError>)
    ensures
        r is Ok <==> ai.data@.len() >= 72,
        r matches Ok(k) ==> k@ == owner_field(ai.data@),
        r matches Err(e) ==> e == ProgramError::InvalidAccountData,
{
    if ai.data.len() < 72 {
        return Err(ProgramError::InvalidAccountData);
    }
    Ok(key_from_slice(&ai.data, 32))
}

/// The token balance, read from an account at least 72 bytes long.
fn token_amount(ai: &AccountView) -> (r: Result<u64, ProgramError>)
    ensures
        r is Ok <==> ai.data@.len() >= 72,
        r matches Ok(a) ==> a == amount_field(ai.data@),
        r matches Err(e) ==> e == ProgramError::InvalidAccountData,
{
    if ai.data.len() < 72 {
        return Err(ProgramError::InvalidAccountData);
    }
    Ok(read_u64_le(&ai.data, 64))
}

/// The guarded call to make, with everything measured before it.
pub struct GuardPlan {
    pub program_id: Key,
    pub accounts: Vec<CpiAccountMeta>,
    pub data: Vec<u8>,
    pub signer_seeds: Vec<Vec<u8>>,
    /// The most the metered balance may fall.
    pub cap: u64,
    pub vault_token_account: Key,
    pub before: u64,
    pub authority_before: [u8; FINGERPRINT_LEN],
    pub siblings: Vec<Snapshot>,
}

/// The accounts passed on to the target program: all but the first three.
pub open spec fn forwarded_of(accounts: Seq<AccountView>) -> Seq<AccountView> {
    accounts.subrange(3, accounts.len() as int)
}

/// Why the guard refuses before the call, given the vault authority address
/// derived for this program; `None` when it goes ahead.
pub open spec fn guard_error(vault_address: Seq<u8>, accounts: Seq<AccountView>, data: Seq<u8>) -> Option<ProgramError> {
    if data.len() < 8 {
        Some(ProgramError::InvalidInstructionData)
    } else if accounts.len() < 3 {
        Some(ProgramError::NotEnoughAccountKeys)
    } else if vault_address != accounts[0].key@ {
        Some(ProgramError::InvalidSeeds)
    } else if accounts[1].data@.len() < 72 {
        Some(ProgramError::InvalidAccountData)
    } else if owner_field(accounts[1].data@) != accounts[0].key@ {
        Some(ProgramError::IllegalOwner)
    } else if accounts[1].data@.len() < TOKEN_ACCOUNT_LEN {
        Some(ProgramError::InvalidAccountData)
    } else {
        None
    }
}

/// `plan` is the call the guard makes for these accounts and data, with the
/// vault authority at `vault_address` and `bump`.
pub open spec fn plan_for(plan: GuardPlan, bump: u8, accounts: Seq<AccountView>, data: Seq<u8>) -> bool {
    &&& plan.cap == crate::guard::le_value(data.subrange(0, 8))
    &&& plan.data@ == data.subrange(8, data.len() as int)
    &&& plan.program_id == accounts[2].key
    &&& metas_for(forwarded_of(accounts), accounts[0].key, plan.accounts@)
    &&& plan.signer_seeds.deep_view() == seq![vault_seed_bytes(), seq![bump]]
    &&& plan.vault_token_account == accounts[1].key
    &&& plan.before == amount_field(accounts[1].data@)
    &&& plan.authority_before@ == fingerprint_bytes(accounts[1].data@)
    &&& plan.siblings@.len() == sibling_positions(forwarded_of(accounts), accounts[1], accounts[0].key).len()
    &&& forall|j: int|
        0 <= j < plan.siblings@.len() ==> snapshot_of(
            #[trigger] plan.siblings@[j],
            forwarded_of(accounts)[sibling_positions(forwarded_of(accounts), accounts[1], accounts[0].key)[j]],
        )
}

/// Everything the guard does before the call, once the vault authority's
/// address has been derived: check the accounts, measure the metered account
/// and its siblings, and build the call.
pub fn plan_guarded_call(vault_address: &Key, bump: u8, accounts: &Vec<AccountView>, data: &Vec<u8>) -> (r: Result<GuardPlan, ProgramError>)
    requires
        data@.len() >= 8,
        accounts@.len() >= 3,
    ensures
        r is Ok <==> guard_error(vault_address@, accounts@, data@) is None,
        r matches Err(e) ==> guard_error(vault_address@, accounts@, data@) == Some(e),
        r matches Ok(plan) ==> plan_for(plan, bump, accounts@, data@),
        r is Ok <==> {
            &&& *vault_address == accounts@[0].key
            &&& accounts@[1].data@.len() >= 165
            &&& accounts@[1].data@.subrange(32, 64) == accounts@[0].key@
        },
        r matches Ok(plan) ==> plan.cap == data@[0] + 0x100 * data@[1] + 0x1_0000 * data@[2]
            + 0x100_0000 * data@[3] + 0x1_0000_0000 * data@[4] + 0x100_0000_0000 * data@[5]
            + 0x1_0000_0000_0000 * data@[6] + 0x100_0000_0000_0000 * data@[7]
            && plan.data@ == data@.subrange(8, data@.len() as int)
            && plan.program_id == accounts@[2].key,
{
    proof {
        crate::guard::lemma_le_value_of_eight_bytes(data@.subrange(0, 8));
    }
    let cap = read_u64_le(data, 0);
    let mut inner: Vec<u8> = Vec::new();
    let mut i: usize = 8;
    while i < data.len()
        invariant
            8 <= i <= data@.len(),
            inner@ == data@.subrange(8, i as int),
        decreases data@.len() - i,
    {
        inner.push(data[i]);
        assert(inner@ =~= data@.subrange(8, i + 1));
        i = i + 1;
    }
    let vault_authority = &accounts[0];
    let vault_token_account = &accounts[1];
    let target_program = &accounts[2];
    if !key_eq(vault_address, &vault_authority.key) {
        return Err(ProgramError::InvalidSeeds);
    }
    let owner = token_owner(vault_token_account)?;
    if !key_eq(&owner, &vault_authority.key) {
        return Err(ProgramError::IllegalOwner);
    }
    let before = token_amount(vault_token_account)?;
    let authority_before = match authority_fingerprint(vault_token_account) {
        Ok(fp) => fp,
        Err(_) => return Err(ProgramError::InvalidAccountData),
    };

    let mut metas: Vec<CpiAccountMeta> = Vec::new();
    let mut k: usize = 3;
    while k < accounts.len()
        invariant
            3 <= k <= accounts@.len(),
            metas@.len() == k - 3,
            forall|j: int|
                0 <= j < k - 3 ==> {
                    &&& (#[trigger] metas@[j]).pubkey == accounts@[j + 3].key
                    &&& metas@[j].is_signer == (accounts@[j + 3].key == accounts@[0].key)
                    &&& metas@[j].is_writable == accounts@[j + 3].is_writable
                },
        decreases accounts@.len() - k,
    {
        let a = &accounts[k];
        metas.push(
            CpiAccountMeta {
                pubkey: a.key,
                // The vault authority is the only thing signed for.
                is_signer: key_eq(&a.key, &accounts[0].key),
                is_writable: a.is_writable,
            },
        );
        k = k + 1;
    }
    let siblings = scope_siblings_from(accounts, 3, vault_token_account, &vault_authority.key);

    let mut signer_seeds: Vec<Vec<u8>> = Vec::new();
    signer_seeds.push(Vault::seed());
    let bump_bytes: Vec<u8> = vec![bump];
    signer_seeds.push(bump_bytes);
    proof {
        assert(signer_seeds@[0].deep_view() =~= vault_seed_bytes());
        assert(signer_seeds@[1].deep_view() =~= seq![bump]);
        assert(signer_seeds.deep_view() =~= seq![vault_seed_bytes(), seq![bump]]);
        assert(data@.subrange(8, data@.len() as int) == inner@);
    }
    Ok(
        GuardPlan {
            program_id: target_program.key,
            accounts: metas,
            data: inner,
            signer_seeds,
            cap,
            vault_token_account: vault_token_account.key,
            before,
            authority_before,
            siblings,
        },
    )
}

/// The seed list of the guard's vault authority: `[b"vault"]`.
pub fn vault_authority_seed_list() -> (s: Vec<Vec<u8>>)
    ensures
        s.deep_view() == vault_authority_seeds(),
{
    let mut s: Vec<Vec<u8>> = Vec::new();
    s.push(Vault::seed());
    proof {
        assert(s@[0].deep_view() =~= vault_seed_bytes());
    }
    assert(s.deep_view() =~= vault_authority_seeds());
    s
}

/// The guard before the call. The instruction data and the account count
/// are checked first; after them, deriving the vault authority's address
/// panics when no address exists for this program, so that case is excluded.
pub fn process_instruction(program_id: &Key, accounts: &Vec<AccountView>, data: &Vec<u8>) -> (r: Result<GuardPlan, ProgramError>)
    requires
        data@.len() >= 8 && accounts@.len() >= 3 ==> program_address(
            vault_authority_seeds(),
            program_id@,
        ) is Some,
    ensures
        ({
            let (vault_address, bump) = program_address(vault_authority_seeds(), program_id@)->0;
            &&& r is Ok <==> guard_error(vault_address, accounts@, data@) is None
            &&& r matches Err(e) ==> guard_error(vault_address, accounts@, data@) == Some(e)
            &&& r matches Ok(plan) ==> plan_for(plan, bump, accounts@, data@)
        }),
{
    if data.len() < 8 {
        return Err(ProgramError::InvalidInstructionData);
    }
    if accounts.len() < 3 {
        return Err(ProgramError::NotEnoughAccountKeys);
    }
    let seeds: Vec<Vec<u8>> = vault_authority_seed_list();
    match try_find_program_address(&seeds, program_id) {
        Some((vault_address, bump)) => plan_guarded_call(&vault_address, bump, accounts, data),
        None => {
            assert(false);
            Err(ProgramError::InvalidSeeds)
        },
    }
}

/// The guard before the call, for any program id: `None` exactly when the
/// instruction data and account count pass their checks but no vault
/// authority address exists for the program (where deriving it panics), and
/// otherwise what `process_instruction` decides.
pub fn try_process_instruction(program_id: &Key, accounts: &Vec<AccountView>, data: &Vec<u8>) -> (r: Option<Result<GuardPlan, ProgramError>>)
    ensures
        r is None <==> (data@.len() >= 8 && accounts@.len() >= 3 && program_address(
            vault_authority_seeds(),
            program_id@,
        ) is None),
        r matches Some(res) ==> ({
            let (vault_address, bump) = program_address(vault_authority_seeds(), program_id@)->0;
            &&& res is Ok <==> guard_error(vault_address, accounts@, data@) is None
            &&& res matches Err(e) ==> guard_error(vault_address, accounts@, data@) == Some(e)
            &&& res matches Ok(plan) ==> plan_for(plan, bump, accounts@, data@)
        }),
{
    if data.len() < 8 || accounts.len() < 3 {
        return Some(process_instruction(program_id, accounts, data));
    }
    let seeds: Vec<Vec<u8>> = vault_authority_seed_list();
    match try_find_program_address(&seeds, program_id) {
        Some(_) => Some(process_instruction(program_id, accounts, data)),
        None => None,
    }
}

/// The state after the call matches the plan.
pub open spec fn guard_settle_matches(plan: GuardPlan, metered_after: AccountView, siblings_after: Seq<AccountView>) -> bool {
    &&& metered_after.key == plan.vault_token_account
    &&& siblings_after.len() == plan.siblings@.len()
    &&& forall|j: int| 0 <= j < siblings_after.len() ==> (#[trigger] siblings_after[j]).key == plan.siblings@[j].account
}

/// What re-reading one sibling decides: readable, authority unchanged, and
/// the balance not fallen.
pub open spec fn sibling_check(s: Snapshot, after: AccountView) -> Option<ProgramError> {
    if after.data@.len() < TOKEN_ACCOUNT_LEN {
        Some(ProgramError::InvalidAccountData)
    } else if fingerprint_bytes(after.data@) != s.fingerprint@ {
        Some(ProgramError::Custom(2))
    } else if amount_field(after.data@) < s.amount {
        Some(ProgramError::Custom(3))
    } else {
        None
    }
}

/// What the guard decides of the metered account after the call: readable,
/// authority unchanged.
pub open spec fn metered_check(plan: GuardPlan, after: AccountView) -> Option<ProgramError> {
    if after.data@.len() < TOKEN_ACCOUNT_LEN {
        Some(ProgramError::InvalidAccountData)
    } else if fingerprint_bytes(after.data@) != plan.authority_before@ {
        Some(ProgramError::Custom(2))
    } else {
        None
    }
}

/// How far the metered balance fell across the call (zero if it grew).
pub open spec fn spent_of(plan: GuardPlan, after: AccountView) -> int {
    if amount_field(after.data@) <= plan.before {
        plan.before - amount_field(after.data@)
    } else {
        0
    }
}

/// The guard's bounds hold after the call, stated from the accounts: the
/// metered account is still a readable token account with its authority
/// fields as before and a balance that fell by at most the cap; every
/// sibling is still a readable token account with its authority fields as
/// before and a balance no lower than before (it may grow).
pub open spec fn guard_bounds_hold(plan: GuardPlan, metered_after: AccountView, siblings_after: Seq<AccountView>) -> bool {
    &&& metered_after.data@.len() >= 165
    &&& fingerprint_bytes(metered_after.data@) == plan.authority_before@
    &&& plan.before <= amount_field(metered_after.data@) + plan.cap
    &&& forall|j: int|
        0 <= j < siblings_after.len() ==> {
            &&& (#[trigger] siblings_after[j]).data@.len() >= 165
            &&& fingerprint_bytes(siblings_after[j].data@) == plan.siblings@[j].fingerprint@
            &&& amount_field(siblings_after[j].data@) >= plan.siblings@[j].amount
        }
}

/// The guard accepts exactly when its bounds hold: a metered fall within the
/// cap is never refused, nor is a sibling that kept its authority and did not
/// fall (one that grew included); any fall past the cap, any fallen sibling
/// and any changed authority field is refused.
pub proof fn lemma_guard_accepts_iff_bounds_hold(plan: GuardPlan, metered_after: AccountView, siblings_after: Seq<AccountView>)
    ensures
        ({
            &&& metered_check(plan, metered_after) is None
            &&& forall|j: int| 0 <= j < siblings_after.len() ==> sibling_check(plan.siblings@[j], #[trigger] siblings_after[j]) is None
            &&& spent_of(plan, metered_after) <= plan.cap
        }) <==> guard_bounds_hold(plan, metered_after, siblings_after),
{
    if guard_bounds_hold(plan, metered_after, siblings_after) {
        assert forall|j: int| 0 <= j < siblings_after.len() implies sibling_check(plan.siblings@[j], #[trigger] siblings_after[j]) is None by {
            assert(siblings_after[j].data@.len() >= 165);
        }
    }
    if metered_check(plan, metered_after) is None && (forall|j: int| 0 <= j < siblings_after.len() ==> sibling_check(plan.siblings@[j], #[trigger] siblings_after[j]) is None) {
        assert forall|j: int| 0 <= j < siblings_after.len() implies {
            &&& (#[trigger] siblings_after[j]).data@.len() >= 165
            &&& fingerprint_bytes(siblings_after[j].data@) == plan.siblings@[j].fingerprint@
            &&& amount_field(siblings_after[j].data@) >= plan.siblings@[j].amount
        } by {
            assert(sibling_check(plan.siblings@[j], siblings_after[j]) is None);
        }
    }
}

/// The guard after the call: no authority on the metered account may have
/// changed, no other vault holding may have fallen or changed authority, and
/// the metered balance may have fallen by at most the cap.
pub fn process_instruction_settle(plan: &GuardPlan, metered_after: &AccountView, siblings_after: &Vec<AccountView>) -> (r: Result<(), ProgramError>)
    requires
        guard_settle_matches(*plan, *metered_after, siblings_after@),
    ensures
        r is Ok <==> {
            &&& metered_check(*plan, *metered_after) is None
            &&& forall|j: int| 0 <= j < siblings_after@.len() ==> sibling_check(plan.siblings@[j], #[trigger] siblings_after@[j]) is None
            &&& spent_of(*plan, *metered_after) <= plan.cap
        },
        r is Ok <==> guard_bounds_hold(*plan, *metered_after, siblings_after@),
        r matches Err(e) ==> {
            ||| metered_check(*plan, *metered_after) == Some(e)
            ||| metered_check(*plan, *metered_after) is None && exists|j: int|
                0 <= j < siblings_after@.len()
                    && (forall|k: int| 0 <= k < j ==> sibling_check(plan.siblings@[k], #[trigger] siblings_after@[k]) is None)
                    && sibling_check(plan.siblings@[j], #[trigger] siblings_after@[j]) == Some(e)
            ||| metered_check(*plan, *metered_after) is None
                && (forall|j: int| 0 <= j < siblings_after@.len() ==> sibling_check(plan.siblings@[j], #[trigger] siblings_after@[j]) is None)
                && spent_of(*plan, *metered_after) > plan.cap && e == ProgramError::Custom(1)
        },
{
    proof {
        lemma_guard_accepts_iff_bounds_hold(*plan, *metered_after, siblings_after@);
    }
    let after = token_amount(metered_after)?;
    let authority_after = match authority_fingerprint(metered_after) {
        Ok(fp) => fp,
        Err(_) => return Err(ProgramError::InvalidAccountData),
    };
    if !fingerprint_eq(&authority_after, &plan.authority_before) {
        return Err(ProgramError::Custom(2));
    }
    let mut i: usize = 0;
    while i < siblings_after.len()
        invariant
            0 <= i <= siblings_after@.len(),
            guard_settle_matches(*plan, *metered_after, siblings_after@),
            metered_check(*plan, *metered_after) is None,
            forall|k: int| 0 <= k < i ==> sibling_check(plan.siblings@[k], #[trigger] siblings_after@[k]) is None,
        decreases siblings_after@.len() - i,
    {
        let a = &siblings_after[i];
        let s = &plan.siblings[i];
        let fp = match authority_fingerprint(a) {
            Ok(fp) => fp,
            Err(_) => return Err(ProgramError::InvalidAccountData),
        };
        if !fingerprint_eq(&fp, &s.fingerprint) {
            return Err(ProgramError::Custom(2));
        }
        let sibling_after = read_u64_le(&a.data, 64);
        if sibling_after < s.amount {
            return Err(ProgramError::Custom(3));
        }
        i = i + 1;
    }
    let spent = plan.before.saturating_sub(after);
    if spent > plan.cap {
        return Err(ProgramError::Custom(1));
    }
    Ok(())
}

} // verus!
