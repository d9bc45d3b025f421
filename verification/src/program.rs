//! ## Instructions
//!
//! Each instruction of the program as a function of the accounts it reads:
//! the new account state, and the token movement or call the runtime must
//! then perform on the vault's behalf. Returning an error rejects the whole
//! transaction, which reverts every effect, the performed call included.

use vstd::prelude::*;

use crate::errors::{AgentWalletError, ConstraintError};
use crate::guard::{
    AccountView, Snapshot, enforce_result, amount_field, fingerprint_bytes, lemma_enforce_accepts_iff_kept, scope_siblings, sibling_positions, snapshot_of,
    TOKEN_ACCOUNT_LEN,
};
use crate::keys::{Key, key_eq};
use crate::pda::{check_derives, derives};
use crate::state::{
    Delegation, PolicyArgs, Vault, active_error, after_spend, policy_error, spend_error,
    accepted_sum, run_spends, within_every_limit, lemma_spend_accepted_iff_within_every_limit,
    vault_seed_bytes, delegation_seed_bytes,
};

verus! {

/// The fields of an SPL token account that the account constraints read.
pub struct TokenAccountState {
    /// The token account's address.
    pub key: Key,
    pub mint: Key,
    /// The wallet that owns the tokens.
    pub owner: Key,
    pub amount: u64,
}

/// A token movement for the runtime to perform: an SPL `TransferChecked` of
/// `amount` from `from` to `to`, authorised by `authority`. When the vault is
/// the authority, `signer_seeds` are the seeds it signs with; otherwise they
/// are empty and the authority signs the transaction itself.
pub struct TokenTransfer {
    pub from: Key,
    pub mint: Key,
    pub to: Key,
    pub authority: Key,
    pub amount: u64,
    pub decimals: u8,
    pub signer_seeds: Vec<Vec<u8>>,
}

/// The seeds of the vault address for `owner`, with its bump.
pub open spec fn vault_signer_seeds_of(owner: Key, bump: u8) -> Seq<Seq<u8>> {
    seq![vault_seed_bytes(), owner@, seq![bump]]
}

/// The 32 bytes of a key as a byte vector.
pub fn key_bytes(k: &Key) -> (v: Vec<u8>)
    ensures
        v@ == k@,
{
    let mut v: Vec<u8> = Vec::new();
    let mut i: usize = 0;
    while i < 32
        invariant
            0 <= i <= 32,
            k@.len() == 32,
            v@ == k@.subrange(0, i as int),
        decreases 32 - i,
    {
        v.push(k[i]);
        assert(v@ =~= k@.subrange(0, i + 1));
        i = i + 1;
    }
    assert(v@ =~= k@);
    v
}

/// The seeds the vault of `owner` signs with: `[b"vault", owner, [bump]]`.
pub fn vault_signer_seeds(owner: &Key, bump: u8) -> (s: Vec<Vec<u8>>)
    ensures
        s.deep_view() == vault_signer_seeds_of(*owner, bump),
{
    let mut s: Vec<Vec<u8>> = Vec::new();
    s.push(Vault::seed());
    s.push(key_bytes(owner));
    let bump_bytes: Vec<u8> = vec![bump];
    s.push(bump_bytes);
    proof {
        assert(s@[0].deep_view() =~= vault_seed_bytes());
        assert(s@[1].deep_view() =~= owner@);
        assert(s@[2].deep_view() =~= seq![bump]);
    }
    assert(s.deep_view() =~= vault_signer_seeds_of(*owner, bump));
    s
}

/// The seeds of the delegation of `agent` on `vault`, with its bump.
pub open spec fn delegation_seeds_of(vault: Key, agent: Key, bump: u8) -> Seq<Seq<u8>> {
    seq![delegation_seed_bytes(), vault@, agent@, seq![bump]]
}

/// The seeds of a delegation address: `[b"delegation", vault, agent, [bump]]`.
pub fn delegation_seeds(vault: &Key, agent: &Key, bump: u8) -> (s: Vec<Vec<u8>>)
    ensures
        s.deep_view() == delegation_seeds_of(*vault, *agent, bump),
{
    let mut s: Vec<Vec<u8>> = Vec::new();
    s.push(Delegation::seed());
    s.push(key_bytes(vault));
    s.push(key_bytes(agent));
    let bump_bytes: Vec<u8> = vec![bump];
    s.push(bump_bytes);
    proof {
        assert(s@[0].deep_view() =~= delegation_seed_bytes());
        assert(s@[1].deep_view() =~= vault@);
        assert(s@[2].deep_view() =~= agent@);
        assert(s@[3].deep_view() =~= seq![bump]);
    }
    assert(s.deep_view() =~= delegation_seeds_of(*vault, *agent, bump));
    s
}

/// The vault account sits at the address its owner and bump derive.
pub open spec fn vault_at(vault_key: Key, vault: Vault, program_id: Key) -> bool {
    derives(vault_signer_seeds_of(vault.owner, vault.bump), program_id, vault_key)
}

/// The delegation account sits at the address its vault, agent and bump
/// derive.
pub open spec fn delegation_at(delegation_key: Key, vault_key: Key, agent: Key, bump: u8, program_id: Key) -> bool {
    derives(delegation_seeds_of(vault_key, agent, bump), program_id, delegation_key)
}

// ## Owner instructions

/// Accounts of `initialize_vault`: the owner and the new vault's address and
/// bump.
pub struct InitializeVault {
    pub owner: Key,
    pub vault: Key,
    pub vault_bump: u8,
}

/// Creates the vault: owned by the signer, not paused.
pub fn initialize_vault(ctx: &InitializeVault) -> (v: Vault)
    ensures
        v.owner == ctx.owner,
        !v.paused,
        v.bump == ctx.vault_bump,
{
    Vault { owner: ctx.owner, paused: false, bump: ctx.vault_bump }
}

/// Accounts of the owner-only vault switch.
pub struct OwnerOnly {
    pub owner: Key,
    pub vault_key: Key,
    pub vault: Vault,
}

/// Vault-wide stop. Blocks every agent at once, without touching any
/// individual delegation.
pub fn set_paused(ctx: &mut OwnerOnly, paused: bool)
    ensures
        final(ctx).vault.paused == paused,
        final(ctx).vault.owner == old(ctx).vault.owner,
        final(ctx).vault.bump == old(ctx).vault.bump,
        final(ctx).owner == old(ctx).owner,
        final(ctx).vault_key == old(ctx).vault_key,
{
    ctx.vault.paused = paused;
}

/// Accounts of `create_delegation`.
pub struct CreateDelegation {
    pub owner: Key,
    pub vault_key: Key,
    pub vault: Vault,
    /// The agent's session key. It does not sign: the owner is granting
    /// authority to it.
    pub agent: Key,
    pub mint: Key,
    pub delegation_key: Key,
    pub delegation_bump: u8,
}

/// Issues a policy to an agent key: both counters start at zero and the
/// window starts now.
pub fn create_delegation(ctx: &CreateDelegation, policy: PolicyArgs, now: i64) -> (r: Result<
    Delegation,
    AgentWalletError,
>)
    ensures
        r is Ok <==> policy_error(policy, now) is None,
        r matches Err(e) ==> policy_error(policy, now) == Some(e),
        r matches Ok(d) ==> {
            &&& d.vault == ctx.vault_key
            &&& d.agent == ctx.agent
            &&& d.mint == ctx.mint
            &&& d.per_tx_limit == policy.per_tx_limit
            &&& d.total_limit == policy.total_limit
            &&& d.total_spent == 0
            &&& d.window_duration == policy.window_duration
            &&& d.window_limit == policy.window_limit
            &&& d.window_spent == 0
            &&& d.window_started_at == now
            &&& d.expires_at == policy.expires_at
            &&& !d.revoked
            &&& d.allowed_destinations == policy.allowed_destinations
            &&& d.allowed_programs == policy.allowed_programs
            &&& d.bump == ctx.delegation_bump
        },
        r matches Ok(d) ==> d.allowed_destinations@.len() <= 8 && d.allowed_programs@.len() <= 8
            && d.expires_at > now,
{
    policy.validate(now)?;
    Ok(
        Delegation {
            vault: ctx.vault_key,
            agent: ctx.agent,
            mint: ctx.mint,
            per_tx_limit: policy.per_tx_limit,
            total_limit: policy.total_limit,
            total_spent: 0,
            window_duration: policy.window_duration,
            window_limit: policy.window_limit,
            window_spent: 0,
            window_started_at: now,
            expires_at: policy.expires_at,
            revoked: false,
            allowed_destinations: policy.allowed_destinations,
            allowed_programs: policy.allowed_programs,
            bump: ctx.delegation_bump,
        },
    )
}

/// Accounts of `update_delegation` and `revoke_delegation`.
pub struct ModifyDelegation {
    pub owner: Key,
    pub vault_key: Key,
    pub vault: Vault,
    pub delegation_key: Key,
    pub delegation: Delegation,
}

/// `new` is `old` with the policy of `p` and everything else kept: the
/// spend counters, the window start, the identity and the revocation flag.
pub open spec fn policy_replaced(old: Delegation, new: Delegation, p: PolicyArgs) -> bool {
    &&& new.per_tx_limit == p.per_tx_limit
    &&& new.total_limit == p.total_limit
    &&& new.window_duration == p.window_duration
    &&& new.window_limit == p.window_limit
    &&& new.expires_at == p.expires_at
    &&& new.allowed_destinations == p.allowed_destinations
    &&& new.allowed_programs == p.allowed_programs
    &&& new.total_spent == old.total_spent
    &&& new.window_spent == old.window_spent
    &&& new.window_started_at == old.window_started_at
    &&& new.revoked == old.revoked
    &&& new.vault == old.vault
    &&& new.agent == old.agent
    &&& new.mint == old.mint
    &&& new.bump == old.bump
}

/// Adjust limits on a live delegation. Spend counters are deliberately not
/// reset: tightening a limit must never hand back budget already used.
pub fn update_delegation(ctx: &mut ModifyDelegation, policy: PolicyArgs, now: i64) -> (r: Result<
    (),
    AgentWalletError,
>)
    ensures
        r is Ok <==> policy_error(policy, now) is None,
        r matches Err(e) ==> policy_error(policy, now) == Some(e),
        r is Ok ==> policy_replaced(old(ctx).delegation, final(ctx).delegation, policy),
        r is Ok ==> final(ctx).delegation.allowed_destinations@.len() <= 8
            && final(ctx).delegation.allowed_programs@.len() <= 8,
        r is Ok ==> final(ctx).delegation.total_spent == old(ctx).delegation.total_spent
            && final(ctx).delegation.window_spent == old(ctx).delegation.window_spent
            && final(ctx).delegation.window_started_at == old(ctx).delegation.window_started_at
            && final(ctx).delegation.revoked == old(ctx).delegation.revoked
            && final(ctx).delegation.total_limit == policy.total_limit
            && final(ctx).delegation.per_tx_limit == policy.per_tx_limit,
        r is Err ==> final(ctx).delegation == old(ctx).delegation,
        final(ctx).vault == old(ctx).vault,
        final(ctx).owner == old(ctx).owner,
        final(ctx).vault_key == old(ctx).vault_key,
        final(ctx).delegation_key == old(ctx).delegation_key,
{
    policy.validate(now)?;
    let d = &mut ctx.delegation;
    d.per_tx_limit = policy.per_tx_limit;
    d.total_limit = policy.total_limit;
    d.window_duration = policy.window_duration;
    d.window_limit = policy.window_limit;
    d.expires_at = policy.expires_at;
    d.allowed_destinations = policy.allowed_destinations;
    d.allowed_programs = policy.allowed_programs;
    Ok(())
}

/// Effective immediately: every spend re-reads this flag. The account is kept
/// rather than closed, so the record of what the agent did survives.
pub fn revoke_delegation(ctx: &mut ModifyDelegation)
    ensures
        final(ctx).delegation == (Delegation { revoked: true, ..old(ctx).delegation }),
        final(ctx).vault == old(ctx).vault,
        final(ctx).owner == old(ctx).owner,
        final(ctx).vault_key == old(ctx).vault_key,
        final(ctx).delegation_key == old(ctx).delegation_key,
{
    ctx.delegation.revoked = true;
}

/// Accounts of `deposit`.
pub struct Deposit {
    pub owner: Key,
    pub vault_key: Key,
    pub vault: Vault,
    pub mint: Key,
    pub mint_decimals: u8,
    pub owner_token_account: TokenAccountState,
    pub vault_token_account: TokenAccountState,
}

/// Funds the vault: a transfer from the owner's token account into the
/// vault's, signed by the owner.
pub fn deposit(ctx: &Deposit, amount: u64) -> (r: Result<TokenTransfer, AgentWalletError>)
    ensures
        r is Ok <==> amount > 0,
        r matches Err(e) ==> e == AgentWalletError::ZeroAmount,
        r matches Ok(t) ==> {
            &&& t.from == ctx.owner_token_account.key
            &&& t.mint == ctx.mint
            &&& t.to == ctx.vault_token_account.key
            &&& t.authority == ctx.owner
            &&& t.amount == amount
            &&& t.decimals == ctx.mint_decimals
            &&& t.signer_seeds@.len() == 0
        },
{
    if !(amount > 0) {
        return Err(AgentWalletError::ZeroAmount);
    }
    Ok(
        TokenTransfer {
            from: ctx.owner_token_account.key,
            mint: ctx.mint,
            to: ctx.vault_token_account.key,
            authority: ctx.owner,
            amount,
            decimals: ctx.mint_decimals,
            signer_seeds: Vec::new(),
        },
    )
}

/// Accounts of `withdraw`.
pub struct Withdraw {
    pub owner: Key,
    pub vault_key: Key,
    pub vault: Vault,
    pub mint: Key,
    pub mint_decimals: u8,
    pub vault_token_account: TokenAccountState,
    pub destination_token_account: TokenAccountState,
}

/// The owner's escape hatch, outside any delegation policy: a transfer out
/// of the vault's token account, signed by the vault.
pub fn withdraw(ctx: &Withdraw, amount: u64) -> (r: Result<TokenTransfer, AgentWalletError>)
    ensures
        r is Ok <==> amount > 0,
        r matches Err(e) ==> e == AgentWalletError::ZeroAmount,
        r matches Ok(t) ==> {
            &&& t.from == ctx.vault_token_account.key
            &&& t.mint == ctx.mint
            &&& t.to == ctx.destination_token_account.key
            &&& t.authority == ctx.vault_key
            &&& t.amount == amount
            &&& t.decimals == ctx.mint_decimals
            &&& t.signer_seeds.deep_view() == vault_signer_seeds_of(ctx.vault.owner, ctx.vault.bump)
        },
{
    if !(amount > 0) {
        return Err(AgentWalletError::ZeroAmount);
    }
    let seeds = vault_signer_seeds(&ctx.vault.owner, ctx.vault.bump);
    Ok(
        TokenTransfer {
            from: ctx.vault_token_account.key,
            mint: ctx.mint,
            to: ctx.destination_token_account.key,
            authority: ctx.vault_key,
            amount,
            decimals: ctx.mint_decimals,
            signer_seeds: seeds,
        },
    )
}

// ## Agent instructions

/// Accounts of `agent_transfer`.
pub struct AgentTransfer {
    /// The session key. This is the only thing the agent holds.
    pub agent: Key,
    pub vault_key: Key,
    pub vault: Vault,
    pub delegation_key: Key,
    pub delegation: Delegation,
    pub mint: Key,
    pub mint_decimals: u8,
    pub vault_token_account: TokenAccountState,
    pub destination_token_account: TokenAccountState,
}

/// The first rule an agent transfer breaks: the vault's pause, then the
/// spend policy, then the destination allowlist.
pub open spec fn transfer_error(vault: Vault, d: Delegation, destination_owner: Key, amount: u64, now: i64) -> Option<
    AgentWalletError,
> {
    if vault.paused {
        Some(AgentWalletError::VaultPaused)
    } else if spend_error(d, amount, now) is Some {
        spend_error(d, amount, now)
    } else if !(d.allowed_destinations@.len() == 0 || d.allowed_destinations@.contains(
        destination_owner,
    )) {
        Some(AgentWalletError::DestinationNotAllowed)
    } else {
        None
    }
}

/// ## The product
///
/// A direct token transfer from the vault, bounded by the delegation: the
/// vault must not be paused, the spend must be within policy, and the
/// destination's owner must be allowlisted. The spend is recorded only once
/// all three hold; a refused transfer leaves the delegation as it was, as the
/// rejected transaction would.
pub fn agent_transfer(ctx: &mut AgentTransfer, amount: u64, now: i64) -> (r: Result<
    TokenTransfer,
    AgentWalletError,
>)
    ensures
        r is Ok <==> transfer_error(
            old(ctx).vault,
            old(ctx).delegation,
            old(ctx).destination_token_account.owner,
            amount,
            now,
        ) is None,
        r matches Err(e) ==> transfer_error(
            old(ctx).vault,
            old(ctx).delegation,
            old(ctx).destination_token_account.owner,
            amount,
            now,
        ) == Some(e),
        r is Ok ==> final(ctx).delegation == after_spend(old(ctx).delegation, amount, now),
        r is Err ==> final(ctx).delegation == old(ctx).delegation,
        r is Ok <==> {
            &&& !old(ctx).vault.paused
            &&& within_every_limit(old(ctx).delegation, amount, now)
            &&& (old(ctx).delegation.allowed_destinations@.len() == 0
                || old(ctx).delegation.allowed_destinations@.contains(
                old(ctx).destination_token_account.owner,
            ))
        },
        r is Ok ==> final(ctx).delegation.total_spent == old(ctx).delegation.total_spent + amount,
        final(ctx).agent == old(ctx).agent,
        final(ctx).vault == old(ctx).vault,
        final(ctx).vault_key == old(ctx).vault_key,
        final(ctx).delegation_key == old(ctx).delegation_key,
        final(ctx).mint == old(ctx).mint,
        final(ctx).mint_decimals == old(ctx).mint_decimals,
        final(ctx).vault_token_account == old(ctx).vault_token_account,
        final(ctx).destination_token_account == old(ctx).destination_token_account,
        r matches Ok(t) ==> {
            &&& t.from == old(ctx).vault_token_account.key
            &&& t.mint == old(ctx).mint
            &&& t.to == old(ctx).destination_token_account.key
            &&& t.authority == old(ctx).vault_key
            &&& t.amount == amount
            &&& t.decimals == old(ctx).mint_decimals
            &&& t.signer_seeds.deep_view() == vault_signer_seeds_of(
                old(ctx).vault.owner,
                old(ctx).vault.bump,
            )
        },
{
    proof {
        lemma_spend_accepted_iff_within_every_limit(ctx.delegation, amount, now);
    }
    if ctx.vault.paused {
        return Err(AgentWalletError::VaultPaused);
    }
    ctx.delegation.check_spend(amount, now)?;
    ctx.delegation.check_destination(&ctx.destination_token_account.owner)?;
    // Both checks passed, so recording cannot be refused.
    let recorded = ctx.delegation.check_and_record(amount, now);
    assert(recorded is Ok);
    let seeds = vault_signer_seeds(&ctx.vault.owner, ctx.vault.bump);
    Ok(
        TokenTransfer {
            from: ctx.vault_token_account.key,
            mint: ctx.mint,
            to: ctx.destination_token_account.key,
            authority: ctx.vault_key,
            amount,
            decimals: ctx.mint_decimals,
            signer_seeds: seeds,
        },
    )
}

/// Accounts of `agent_invoke`. Everything the inner instruction needs
/// arrives separately, as the forwarded accounts.
pub struct AgentInvoke {
    pub agent: Key,
    pub vault_key: Key,
    pub vault: Vault,
    pub delegation_key: Key,
    pub delegation: Delegation,
    pub mint: Key,
    /// The metered account, as the account constraints read it.
    pub vault_token_account: TokenAccountState,
    /// The metered account, as the guard measures it.
    pub vault_token_account_info: AccountView,
    pub target_program: AccountView,
}

/// One account of the forwarded instruction.
pub struct CpiAccountMeta {
    pub pubkey: Key,
    pub is_signer: bool,
    pub is_writable: bool,
}

/// The forwarded accounts as the inner instruction receives them: the vault
/// is the only account signed for.
pub open spec fn metas_for(forwarded: Seq<AccountView>, vault: Key, metas: Seq<CpiAccountMeta>) -> bool {
    &&& metas.len() == forwarded.len()
    &&& forall|i: int|
        0 <= i < metas.len() ==> {
            &&& (#[trigger] metas[i]).pubkey == forwarded[i].key
            &&& metas[i].is_signer == (forwarded[i].key == vault)
            &&& metas[i].is_writable == forwarded[i].is_writable
        }
}

/// The call `agent_invoke` asks the runtime to make, signed by the vault,
/// with the measurements taken before it.
pub struct InvokePlan {
    pub program_id: Key,
    pub accounts: Vec<CpiAccountMeta>,
    pub data: Vec<u8>,
    pub signer_seeds: Vec<Vec<u8>>,
    /// The metered vault token account before the call.
    pub metered: Snapshot,
    /// Every other vault token account the call can reach, before it.
    pub siblings: Vec<Snapshot>,
}

/// The first reason `agent_invoke` refuses before making the call, if any.
pub open spec fn invoke_error(ctx: AgentInvoke, now: i64, program_id: Key) -> Option<
    AgentWalletError,
> {
    if ctx.vault.paused {
        Some(AgentWalletError::VaultPaused)
    } else if active_error(ctx.delegation, now) is Some {
        active_error(ctx.delegation, now)
    } else if ctx.target_program.key == program_id {
        Some(AgentWalletError::SelfInvokeForbidden)
    } else if !ctx.target_program.executable {
        Some(AgentWalletError::TargetNotExecutable)
    } else if !ctx.delegation.allowed_programs@.contains(ctx.target_program.key) {
        Some(AgentWalletError::ProgramNotAllowed)
    } else if ctx.vault_token_account_info.data@.len() < TOKEN_ACCOUNT_LEN {
        Some(AgentWalletError::NotVaultTokenAccount)
    } else {
        None
    }
}

/// ## Arbitrary call, bounded by measurement: before the call
///
/// Refuses a paused vault, an inactive delegation, a call into this program
/// itself (`program_id`), a target that is not executable and one off the
/// program allowlist, all before anything runs. Otherwise it measures the
/// metered account and every sibling vault holding among the forwarded
/// accounts, and returns the unparsed call to make as the vault. The
/// destination allowlist does not apply here: the guard cannot know a
/// destination without parsing.
pub fn agent_invoke(
    ctx: &AgentInvoke,
    forwarded: &Vec<AccountView>,
    data: Vec<u8>,
    now: i64,
    program_id: &Key,
) -> (r: Result<InvokePlan, AgentWalletError>)
    ensures
        r is Ok <==> invoke_error(*ctx, now, *program_id) is None,
        r matches Err(e) ==> invoke_error(*ctx, now, *program_id) == Some(e),
        r is Ok <==> {
            &&& !ctx.vault.paused
            &&& !ctx.delegation.revoked
            &&& now < ctx.delegation.expires_at
            &&& ctx.target_program.key != *program_id
            &&& ctx.target_program.executable
            &&& ctx.delegation.allowed_programs@.contains(ctx.target_program.key)
            &&& ctx.vault_token_account_info.data@.len() >= 165
        },
        r matches Ok(plan) ==> {
            &&& plan.program_id == ctx.target_program.key
            &&& metas_for(forwarded@, ctx.vault_key, plan.accounts@)
            &&& plan.data@ == data@
            &&& plan.signer_seeds.deep_view() == vault_signer_seeds_of(ctx.vault.owner, ctx.vault.bump)
            &&& snapshot_of(plan.metered, ctx.vault_token_account_info)
            &&& plan.siblings@.len() == sibling_positions(
                forwarded@,
                ctx.vault_token_account_info,
                ctx.vault_key,
            ).len()
            &&& forall|j: int|
                0 <= j < plan.siblings@.len() ==> snapshot_of(
                    #[trigger] plan.siblings@[j],
                    forwarded@[sibling_positions(
                        forwarded@,
                        ctx.vault_token_account_info,
                        ctx.vault_key,
                    )[j]],
                )
        },
{
    if ctx.vault.paused {
        return Err(AgentWalletError::VaultPaused);
    }
    // Checked before the call: a revoked delegation must not execute at all.
    ctx.delegation.check_active(now)?;
    let target = ctx.target_program.key;
    if key_eq(&target, program_id) {
        return Err(AgentWalletError::SelfInvokeForbidden);
    }
    if !ctx.target_program.executable {
        return Err(AgentWalletError::TargetNotExecutable);
    }
    ctx.delegation.check_program(&target)?;

    // ## Measure before
    let metered = Snapshot::take(&ctx.vault_token_account_info)?;
    let siblings = scope_siblings(forwarded, &ctx.vault_token_account_info, &ctx.vault_key);

    // ## The call, unparsed
    let mut metas: Vec<CpiAccountMeta> = Vec::new();
    let mut i: usize = 0;
    while i < forwarded.len()
        invariant
            0 <= i <= forwarded.len(),
            metas@.len() == i,
            forall|k: int|
                0 <= k < i ==> {
                    &&& (#[trigger] metas@[k]).pubkey == forwarded@[k].key
                    &&& metas@[k].is_signer == (forwarded@[k].key == ctx.vault_key)
                    &&& metas@[k].is_writable == forwarded@[k].is_writable
                },
        decreases forwarded.len() - i,
    {
        let a = &forwarded[i];
        metas.push(
            CpiAccountMeta {
                pubkey: a.key,
                // The vault is the only thing this program signs for.
                is_signer: key_eq(&a.key, &ctx.vault_key),
                is_writable: a.is_writable,
            },
        );
        i = i + 1;
    }
    let seeds = vault_signer_seeds(&ctx.vault.owner, ctx.vault.bump);
    Ok(
        InvokePlan {
            program_id: target,
            accounts: metas,
            data,
            signer_seeds: seeds,
            metered,
            siblings,
        },
    )
}

/// The state after the call matches the plan: `metered_after` is the metered
/// account and `siblings_after[j]` is the account of `plan.siblings[j]`, both
/// read after the call.
pub open spec fn settle_matches(plan: InvokePlan, metered_after: AccountView, siblings_after: Seq<AccountView>) -> bool {
    &&& metered_after.key == plan.metered.account
    &&& siblings_after.len() == plan.siblings@.len()
    &&& forall|j: int| 0 <= j < siblings_after.len() ==> (#[trigger] siblings_after[j]).key == plan.siblings@[j].account
}

/// Every sibling holding came back: authority unchanged, lamports and balance
/// not fallen, for the first `n` siblings.
pub open spec fn siblings_held(plan: InvokePlan, siblings_after: Seq<AccountView>, n: int) -> bool {
    forall|j: int|
        0 <= j < n ==> enforce_result(plan.siblings@[j], #[trigger] siblings_after[j], false) == Ok::<
            u64,
            AgentWalletError,
        >(0)
}

/// ## Arbitrary call, bounded by measurement: after the call
///
/// The value has already moved; returning an error is what reverts it.
/// Siblings first (a drained holding is the more dangerous condition), then
/// the metered account, whose fall is charged to the delegation. A call that
/// moved nothing consumes no budget.
pub fn agent_invoke_settle(
    delegation: &mut Delegation,
    plan: &InvokePlan,
    metered_after: &AccountView,
    siblings_after: &Vec<AccountView>,
    now: i64,
) -> (r: Result<(), AgentWalletError>)
    requires
        settle_matches(*plan, *metered_after, siblings_after@),
    ensures
        r is Ok <==> {
            &&& forall|j: int|
                0 <= j < siblings_after@.len() ==> {
                    &&& (#[trigger] siblings_after@[j]).data@.len() >= 165
                    &&& fingerprint_bytes(siblings_after@[j].data@) == plan.siblings@[j].fingerprint@
                    &&& siblings_after@[j].lamports >= plan.siblings@[j].lamports
                    &&& amount_field(siblings_after@[j].data@) >= plan.siblings@[j].amount
                }
            &&& metered_after.data@.len() >= 165
            &&& fingerprint_bytes(metered_after.data@) == plan.metered.fingerprint@
            &&& metered_after.lamports >= plan.metered.lamports
            &&& amount_field(metered_after.data@) < plan.metered.amount ==> within_every_limit(
                *old(delegation),
                (plan.metered.amount - amount_field(metered_after.data@)) as u64,
                now,
            )
        },
        r is Ok ==> final(delegation).total_spent == old(delegation).total_spent + if amount_field(
            metered_after.data@,
        ) < plan.metered.amount {
            plan.metered.amount - amount_field(metered_after.data@)
        } else {
            0
        },
        r is Ok ==> {
            &&& siblings_held(*plan, siblings_after@, siblings_after@.len() as int)
            &&& enforce_result(plan.metered, *metered_after, true) matches Ok(spent)
            &&& (spent > 0 ==> spend_error(*old(delegation), spent, now) is None)
            &&& *final(delegation) == if spent > 0 {
                after_spend(*old(delegation), spent, now)
            } else {
                *old(delegation)
            }
        },
        r matches Err(e) ==> {
            ||| exists|j: int|
                0 <= j < siblings_after@.len() && siblings_held(*plan, siblings_after@, j)
                    && enforce_result(plan.siblings@[j], #[trigger] siblings_after@[j], false)
                    == Err::<u64, AgentWalletError>(e) && *final(delegation) == *old(delegation)
            ||| siblings_held(*plan, siblings_after@, siblings_after@.len() as int) && enforce_result(
                plan.metered,
                *metered_after,
                true,
            ) == Err::<u64, AgentWalletError>(e) && *final(delegation) == *old(delegation)
            ||| siblings_held(*plan, siblings_after@, siblings_after@.len() as int) && (enforce_result(
                plan.metered,
                *metered_after,
                true,
            ) matches Ok(spent) && spent > 0 && spend_error(*old(delegation), spent, now) == Some(e)
                && *final(delegation) == after_spend(*old(delegation), spent, now))
        },
{
    let mut i: usize = 0;
    while i < siblings_after.len()
        invariant
            0 <= i <= siblings_after@.len(),
            settle_matches(*plan, *metered_after, siblings_after@),
            siblings_held(*plan, siblings_after@, i as int),
            *delegation == *old(delegation),
        decreases siblings_after@.len() - i,
    {
        let r = plan.siblings[i].enforce(&siblings_after[i], false);
        match r {
            Ok(_) => {},
            Err(e) => {
                assert(siblings_held(*plan, siblings_after@, i as int));
                return Err(e);
            },
        }
        i = i + 1;
    }
    let spent = plan.metered.enforce(metered_after, true)?;
    // A zero-cost call (a read, a no-op) consumes no budget.
    if spent > 0 {
        delegation.check_and_record(spent, now)?;
    }
    Ok(())
}

// ## Account constraints
//
// Checked before an instruction runs, field by field in declaration order;
// within a field the address derivation first, then the stored keys, then
// this program's own constraints.

/// The vault passed to an owner instruction sits at the address the signing
/// owner derives, and records that owner.
pub open spec fn owner_vault_check(owner: Key, vault_key: Key, vault: Vault, program_id: Key) -> Result<
    (),
    ConstraintError,
> {
    if !derives(vault_signer_seeds_of(owner, vault.bump), program_id, vault_key) {
        Err(ConstraintError::Seeds)
    } else if vault.owner != owner {
        Err(ConstraintError::HasOne)
    } else {
        Ok(())
    }
}

fn check_owner_vault(owner: &Key, vault_key: &Key, vault: &Vault, program_id: &Key) -> (r: Result<
    (),
    ConstraintError,
>)
    ensures
        r == owner_vault_check(*owner, *vault_key, *vault, *program_id),
{
    let seeds = vault_signer_seeds(owner, vault.bump);
    if !check_derives(&seeds, program_id, vault_key) {
        return Err(ConstraintError::Seeds);
    }
    if !key_eq(&vault.owner, owner) {
        return Err(ConstraintError::HasOne);
    }
    Ok(())
}

/// The delegation passed to an agent instruction sits at the address the
/// vault and the signing agent derive, and records that vault, agent and
/// mint.
pub open spec fn agent_delegation_check(
    agent: Key,
    vault_key: Key,
    vault: Vault,
    delegation_key: Key,
    delegation: Delegation,
    mint: Key,
    program_id: Key,
) -> Result<(), ConstraintError> {
    if !vault_at(vault_key, vault, program_id) {
        Err(ConstraintError::Seeds)
    } else if !delegation_at(delegation_key, vault_key, agent, delegation.bump, program_id) {
        Err(ConstraintError::Seeds)
    } else if delegation.vault != vault_key {
        Err(ConstraintError::HasOne)
    } else if delegation.agent != agent {
        Err(ConstraintError::HasOne)
    } else if delegation.mint != mint {
        Err(ConstraintError::HasOne)
    } else {
        Ok(())
    }
}

fn check_agent_delegation(
    agent: &Key,
    vault_key: &Key,
    vault: &Vault,
    delegation_key: &Key,
    delegation: &Delegation,
    mint: &Key,
    program_id: &Key,
) -> (r: Result<(), ConstraintError>)
    ensures
        r == agent_delegation_check(
            *agent,
            *vault_key,
            *vault,
            *delegation_key,
            *delegation,
            *mint,
            *program_id,
        ),
{
    let seeds = vault_signer_seeds(&vault.owner, vault.bump);
    if !check_derives(&seeds, program_id, vault_key) {
        return Err(ConstraintError::Seeds);
    }
    let dseeds = delegation_seeds(vault_key, agent, delegation.bump);
    if !check_derives(&dseeds, program_id, delegation_key) {
        return Err(ConstraintError::Seeds);
    }
    if !key_eq(&delegation.vault, vault_key) {
        return Err(ConstraintError::HasOne);
    }
    if !key_eq(&delegation.agent, agent) {
        return Err(ConstraintError::HasOne);
    }
    if !key_eq(&delegation.mint, mint) {
        return Err(ConstraintError::HasOne);
    }
    Ok(())
}

/// A token account of `mint` held by the vault.
pub open spec fn vault_token_check(t: TokenAccountState, vault_key: Key, mint: Key) -> Result<
    (),
    ConstraintError,
> {
    if t.owner != vault_key {
        Err(ConstraintError::Custom(AgentWalletError::NotVaultTokenAccount))
    } else if t.mint != mint {
        Err(ConstraintError::Custom(AgentWalletError::MintMismatch))
    } else {
        Ok(())
    }
}

fn check_vault_token(t: &TokenAccountState, vault_key: &Key, mint: &Key) -> (r: Result<
    (),
    ConstraintError,
>)
    ensures
        r == vault_token_check(*t, *vault_key, *mint),
{
    if !key_eq(&t.owner, vault_key) {
        return Err(ConstraintError::Custom(AgentWalletError::NotVaultTokenAccount));
    }
    if !key_eq(&t.mint, mint) {
        return Err(ConstraintError::Custom(AgentWalletError::MintMismatch));
    }
    Ok(())
}

/// A token account of `mint`.
pub open spec fn mint_check(t: TokenAccountState, mint: Key) -> Result<(), ConstraintError> {
    if t.mint != mint {
        Err(ConstraintError::Custom(AgentWalletError::MintMismatch))
    } else {
        Ok(())
    }
}

fn check_mint(t: &TokenAccountState, mint: &Key) -> (r: Result<(), ConstraintError>)
    ensures
        r == mint_check(*t, *mint),
{
    if !key_eq(&t.mint, mint) {
        return Err(ConstraintError::Custom(AgentWalletError::MintMismatch));
    }
    Ok(())
}

/// The first refusal among checks taken in order.
pub open spec fn then_check(a: Result<(), ConstraintError>, b: Result<(), ConstraintError>) -> Result<
    (),
    ConstraintError,
> {
    if a is Err {
        a
    } else {
        b
    }
}

/// What the account checks of `OwnerOnly` and `CreateDelegation` decide.
pub open spec fn owner_accounts_check(owner: Key, vault_key: Key, vault: Vault, program_id: Key) -> Result<(), ConstraintError> {
    owner_vault_check(owner, vault_key, vault, program_id)
}

/// The accounts of an owner instruction are right: the vault sits at the
/// address the signing owner and the vault's bump derive, and records that
/// owner.
pub open spec fn owner_accounts_ok(owner: Key, vault_key: Key, vault: Vault, program_id: Key) -> bool {
    &&& derives(vault_signer_seeds_of(owner, vault.bump), program_id, vault_key)
    &&& vault.owner == owner
}

/// What the account checks of `ModifyDelegation` decide.
pub open spec fn modify_accounts_check(c: ModifyDelegation, program_id: Key) -> Result<(), ConstraintError> {
    then_check(
        owner_vault_check(c.owner, c.vault_key, c.vault, program_id),
        if !delegation_at(c.delegation_key, c.vault_key, c.delegation.agent, c.delegation.bump, program_id) {
            Err(ConstraintError::Seeds)
        } else if c.delegation.vault != c.vault_key {
            Err(ConstraintError::HasOne)
        } else {
            Ok(())
        },
    )
}

/// The accounts of `update_delegation` / `revoke_delegation` are right: the
/// signer owns the vault, and the delegation belongs to that vault, at the
/// address the vault and its agent derive.
pub open spec fn modify_accounts_ok(c: ModifyDelegation, program_id: Key) -> bool {
    &&& derives(vault_signer_seeds_of(c.owner, c.vault.bump), program_id, c.vault_key)
    &&& c.vault.owner == c.owner
    &&& derives(
        delegation_seeds_of(c.vault_key, c.delegation.agent, c.delegation.bump),
        program_id,
        c.delegation_key,
    )
    &&& c.delegation.vault == c.vault_key
}

/// What the account checks of `Deposit` decide.
pub open spec fn deposit_accounts_check(c: Deposit, program_id: Key) -> Result<(), ConstraintError> {
    then_check(
        owner_vault_check(c.owner, c.vault_key, c.vault, program_id),
        then_check(
            mint_check(c.owner_token_account, c.mint),
            vault_token_check(c.vault_token_account, c.vault_key, c.mint),
        ),
    )
}

/// The accounts of `deposit` are right: the signer owns the vault, the
/// source is a token account of the mint, and the target is the vault's
/// token account of the mint.
pub open spec fn deposit_accounts_ok(c: Deposit, program_id: Key) -> bool {
    &&& derives(vault_signer_seeds_of(c.owner, c.vault.bump), program_id, c.vault_key)
    &&& c.vault.owner == c.owner
    &&& c.owner_token_account.mint == c.mint
    &&& c.vault_token_account.owner == c.vault_key
    &&& c.vault_token_account.mint == c.mint
}

/// What the account checks of `Withdraw` decide.
pub open spec fn withdraw_accounts_check(c: Withdraw, program_id: Key) -> Result<(), ConstraintError> {
    then_check(
        owner_vault_check(c.owner, c.vault_key, c.vault, program_id),
        then_check(
            vault_token_check(c.vault_token_account, c.vault_key, c.mint),
            mint_check(c.destination_token_account, c.mint),
        ),
    )
}

/// The accounts of `withdraw` are right: the signer owns the vault, the
/// source is the vault's token account of the mint, and the destination is a
/// token account of the mint.
pub open spec fn withdraw_accounts_ok(c: Withdraw, program_id: Key) -> bool {
    &&& derives(vault_signer_seeds_of(c.owner, c.vault.bump), program_id, c.vault_key)
    &&& c.vault.owner == c.owner
    &&& c.vault_token_account.owner == c.vault_key
    &&& c.vault_token_account.mint == c.mint
    &&& c.destination_token_account.mint == c.mint
}

/// What the account checks of `AgentTransfer` decide.
pub open spec fn agent_transfer_accounts_check(c: AgentTransfer, program_id: Key) -> Result<(), ConstraintError> {
    then_check(
        agent_delegation_check(c.agent, c.vault_key, c.vault, c.delegation_key, c.delegation, c.mint, program_id),
        then_check(
            vault_token_check(c.vault_token_account, c.vault_key, c.mint),
            mint_check(c.destination_token_account, c.mint),
        ),
    )
}

/// The delegation's own accounts are right: the vault sits at the address
/// its owner and bump derive, the delegation at the address the vault and
/// the signing agent derive, and the delegation records that vault, agent
/// and mint.
pub open spec fn agent_delegation_ok(
    agent: Key,
    vault_key: Key,
    vault: Vault,
    delegation_key: Key,
    delegation: Delegation,
    mint: Key,
    program_id: Key,
) -> bool {
    &&& derives(vault_signer_seeds_of(vault.owner, vault.bump), program_id, vault_key)
    &&& derives(delegation_seeds_of(vault_key, agent, delegation.bump), program_id, delegation_key)
    &&& delegation.vault == vault_key
    &&& delegation.agent == agent
    &&& delegation.mint == mint
}

/// The accounts of `agent_transfer` are right: the delegation is the
/// signing agent's on this vault and mint, the source is the vault's token
/// account of that mint, and the destination is a token account of that mint.
pub open spec fn agent_transfer_accounts_ok(c: AgentTransfer, program_id: Key) -> bool {
    &&& agent_delegation_ok(c.agent, c.vault_key, c.vault, c.delegation_key, c.delegation, c.mint, program_id)
    &&& c.vault_token_account.owner == c.vault_key
    &&& c.vault_token_account.mint == c.mint
    &&& c.destination_token_account.mint == c.mint
}

/// What the account checks of `AgentInvoke` decide.
pub open spec fn agent_invoke_accounts_check(c: AgentInvoke, program_id: Key) -> Result<(), ConstraintError> {
    then_check(
        agent_delegation_check(c.agent, c.vault_key, c.vault, c.delegation_key, c.delegation, c.mint, program_id),
        vault_token_check(c.vault_token_account, c.vault_key, c.mint),
    )
}

/// The accounts of `agent_invoke` are right: the delegation is the signing
/// agent's on this vault and mint, and the metered account is the vault's
/// token account of that mint.
pub open spec fn agent_invoke_accounts_ok(c: AgentInvoke, program_id: Key) -> bool {
    &&& agent_delegation_ok(c.agent, c.vault_key, c.vault, c.delegation_key, c.delegation, c.mint, program_id)
    &&& c.vault_token_account.owner == c.vault_key
    &&& c.vault_token_account.mint == c.mint
}

/// The account checks accept exactly the right accounts, for every
/// instruction: an agent instruction only on the signing agent's delegation
/// of this vault, with the vault's token account of the delegation's mint
/// (and, for a transfer, a destination of that mint); an owner instruction
/// only for the vault's owner, with token accounts of the instruction's mint.
pub proof fn lemma_accounts_accepted_iff_right(
    owner_only: OwnerOnly,
    modify: ModifyDelegation,
    dep: Deposit,
    wd: Withdraw,
    transfer: AgentTransfer,
    invoke: AgentInvoke,
    program_id: Key,
)
    ensures
        owner_accounts_check(owner_only.owner, owner_only.vault_key, owner_only.vault, program_id) is Ok
            <==> owner_accounts_ok(owner_only.owner, owner_only.vault_key, owner_only.vault, program_id),
        modify_accounts_check(modify, program_id) is Ok <==> modify_accounts_ok(modify, program_id),
        deposit_accounts_check(dep, program_id) is Ok <==> deposit_accounts_ok(dep, program_id),
        withdraw_accounts_check(wd, program_id) is Ok <==> withdraw_accounts_ok(wd, program_id),
        agent_transfer_accounts_check(transfer, program_id) is Ok <==> agent_transfer_accounts_ok(
            transfer,
            program_id,
        ),
        agent_invoke_accounts_check(invoke, program_id) is Ok <==> agent_invoke_accounts_ok(
            invoke,
            program_id,
        ),
{
}

impl OwnerOnly {
    /// Only the vault's owner, signing, reaches the vault.
    pub fn validate(&self, program_id: &Key) -> (r: Result<(), ConstraintError>)
        ensures
            r == owner_accounts_check(self.owner, self.vault_key, self.vault, *program_id),
            r is Ok <==> owner_accounts_ok(self.owner, self.vault_key, self.vault, *program_id),
    {
        check_owner_vault(&self.owner, &self.vault_key, &self.vault, program_id)
    }
}

impl CreateDelegation {
    /// Only the vault's owner issues delegations on it.
    pub fn validate(&self, program_id: &Key) -> (r: Result<(), ConstraintError>)
        ensures
            r == owner_accounts_check(self.owner, self.vault_key, self.vault, *program_id),
            r is Ok <==> owner_accounts_ok(self.owner, self.vault_key, self.vault, *program_id),
    {
        check_owner_vault(&self.owner, &self.vault_key, &self.vault, program_id)
    }
}

impl ModifyDelegation {
    /// Only the vault's owner changes a delegation, and only one of that
    /// vault, at the address its vault and agent derive.
    pub fn validate(&self, program_id: &Key) -> (r: Result<(), ConstraintError>)
        ensures
            r == modify_accounts_check(*self, *program_id),
            r is Ok <==> modify_accounts_ok(*self, *program_id),
    {
        check_owner_vault(&self.owner, &self.vault_key, &self.vault, program_id)?;
        let dseeds = delegation_seeds(&self.vault_key, &self.delegation.agent, self.delegation.bump);
        if !check_derives(&dseeds, program_id, &self.delegation_key) {
            return Err(ConstraintError::Seeds);
        }
        if !key_eq(&self.delegation.vault, &self.vault_key) {
            return Err(ConstraintError::HasOne);
        }
        Ok(())
    }
}

impl Deposit {
    /// Only the vault's owner deposits, from a token account of the mint into
    /// the vault's token account of the mint.
    pub fn validate(&self, program_id: &Key) -> (r: Result<(), ConstraintError>)
        ensures
            r == deposit_accounts_check(*self, *program_id),
            r is Ok <==> deposit_accounts_ok(*self, *program_id),
    {
        check_owner_vault(&self.owner, &self.vault_key, &self.vault, program_id)?;
        check_mint(&self.owner_token_account, &self.mint)?;
        check_vault_token(&self.vault_token_account, &self.vault_key, &self.mint)
    }
}

impl Withdraw {
    /// Only the vault's owner withdraws, from the vault's token account of
    /// the mint into a token account of the mint.
    pub fn validate(&self, program_id: &Key) -> (r: Result<(), ConstraintError>)
        ensures
            r == withdraw_accounts_check(*self, *program_id),
            r is Ok <==> withdraw_accounts_ok(*self, *program_id),
    {
        check_owner_vault(&self.owner, &self.vault_key, &self.vault, program_id)?;
        check_vault_token(&self.vault_token_account, &self.vault_key, &self.mint)?;
        check_mint(&self.destination_token_account, &self.mint)
    }
}

impl AgentTransfer {
    /// Only the delegation's own agent spends it, on its own vault and mint,
    /// out of the vault's token account into a token account of the mint.
    pub fn validate(&self, program_id: &Key) -> (r: Result<(), ConstraintError>)
        ensures
            r == agent_transfer_accounts_check(*self, *program_id),
            r is Ok <==> agent_transfer_accounts_ok(*self, *program_id),
    {
        check_agent_delegation(
            &self.agent,
            &self.vault_key,
            &self.vault,
            &self.delegation_key,
            &self.delegation,
            &self.mint,
            program_id,
        )?;
        check_vault_token(&self.vault_token_account, &self.vault_key, &self.mint)?;
        check_mint(&self.destination_token_account, &self.mint)
    }
}

impl AgentInvoke {
    /// Only the delegation's own agent invokes through it, metering the
    /// vault's token account of the delegation's mint.
    pub fn validate(&self, program_id: &Key) -> (r: Result<(), ConstraintError>)
        ensures
            r == agent_invoke_accounts_check(*self, *program_id),
            r is Ok <==> agent_invoke_accounts_ok(*self, *program_id),
    {
        check_agent_delegation(
            &self.agent,
            &self.vault_key,
            &self.vault,
            &self.delegation_key,
            &self.delegation,
            &self.mint,
            program_id,
        )?;
        check_vault_token(&self.vault_token_account, &self.vault_key, &self.mint)
    }
}

// ## Laws of the instructions

/// Pause stops every agent: on a paused vault every agent transfer and every
/// agent call is refused with `VaultPaused`, whatever the delegation, and the
/// delegation is left as it was.
pub proof fn lemma_pause_stops_every_agent(
    transfer: AgentTransfer,
    invoke: AgentInvoke,
    amount: u64,
    now: i64,
    program_id: Key,
)
    requires
        transfer.vault.paused,
        invoke.vault.paused,
    ensures
        transfer_error(
            transfer.vault,
            transfer.delegation,
            transfer.destination_token_account.owner,
            amount,
            now,
        ) == Some(AgentWalletError::VaultPaused),
        invoke_error(invoke, now, program_id) == Some(AgentWalletError::VaultPaused),
{
}

/// Revocation is immediate: once `revoke_delegation` has run, the policy
/// accepts no spend through the delegation at any time and leaves it
/// unchanged, and no agent transfer goes through; unless the vault is paused,
/// the refusal says `DelegationRevoked`, whatever the destination.
pub proof fn lemma_revocation_is_immediate(
    before: ModifyDelegation,
    after: ModifyDelegation,
    vault: Vault,
    destination_owner: Key,
    amount: u64,
    now: i64,
)
    requires
        after.delegation == (Delegation { revoked: true, ..before.delegation }),
    ensures
        spend_error(after.delegation, amount, now) == Some(AgentWalletError::DelegationRevoked),
        after_spend(after.delegation, amount, now) == after.delegation,
        transfer_error(vault, after.delegation, destination_owner, amount, now) is Some,
        !vault.paused ==> transfer_error(vault, after.delegation, destination_owner, amount, now)
            == Some(AgentWalletError::DelegationRevoked),
{
}

/// A revoked delegation never reaches the call: `agent_invoke` refuses it
/// before anything runs.
pub proof fn lemma_revoked_invoke_never_runs(ctx: AgentInvoke, now: i64, program_id: Key)
    requires
        ctx.delegation.revoked,
    ensures
        invoke_error(ctx, now, program_id) is Some,
        !ctx.vault.paused ==> invoke_error(ctx, now, program_id) == Some(
            AgentWalletError::DelegationRevoked,
        ),
{
}

/// Tightening a limit never hands back budget: after an update that sets the
/// lifetime cap at or below what was already spent, no later spend is
/// accepted at all, in any sequence.
pub proof fn lemma_tightening_never_refunds(
    before: Delegation,
    after: Delegation,
    policy: PolicyArgs,
    spends: Seq<(u64, i64)>,
)
    requires
        policy_replaced(before, after, policy),
        policy.total_limit <= before.total_spent,
    ensures
        accepted_sum(after, spends) == 0,
        run_spends(after, spends).total_spent == before.total_spent,
    decreases spends.len(),
{
    if spends.len() > 0 {
        lemma_tightening_never_refunds(before, after, policy, spends.drop_last());
        lemma_refusals_keep_limits(after, spends.drop_last());
    }
}

/// Along any sequence of spend attempts the limits stay where they were.
proof fn lemma_refusals_keep_limits(d: Delegation, spends: Seq<(u64, i64)>)
    ensures
        run_spends(d, spends).total_limit == d.total_limit,
        run_spends(d, spends).total_spent >= d.total_spent,
    decreases spends.len(),
{
    if spends.len() > 0 {
        lemma_refusals_keep_limits(d, spends.drop_last());
    }
}

} // verus!
