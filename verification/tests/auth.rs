//! Who may do what: the account constraints, checked against addresses the
//! runtime library really derives.

use agent_wallet::errors::{AgentWalletError as E, ConstraintError};
use agent_wallet::program::{
    agent_transfer, deposit, withdraw, AgentTransfer, Deposit, ModifyDelegation, OwnerOnly, TokenAccountState,
    Withdraw,
};
use agent_wallet::state::{Delegation, Vault};
use solana_program::pubkey::Pubkey;

fn program_id() -> Pubkey {
    Pubkey::new_from_array([42u8; 32])
}

fn key(b: u8) -> [u8; 32] {
    [b; 32]
}

fn vault_of(owner: [u8; 32]) -> ([u8; 32], u8) {
    let (v, b) = Pubkey::find_program_address(&[b"vault", &owner], &program_id());
    (v.to_bytes(), b)
}

fn delegation_of(vault: [u8; 32], agent: [u8; 32]) -> ([u8; 32], u8) {
    let (d, b) = Pubkey::find_program_address(&[b"delegation", &vault, &agent], &program_id());
    (d.to_bytes(), b)
}

const OWNER: u8 = 1;
const AGENT: u8 = 2;
const MINT: u8 = 3;

fn delegation(vault: [u8; 32], bump: u8) -> Delegation {
    Delegation {
        vault,
        agent: key(AGENT),
        mint: key(MINT),
        per_tx_limit: 100,
        total_limit: 500,
        total_spent: 0,
        window_duration: 0,
        window_limit: 0,
        window_spent: 0,
        window_started_at: 0,
        expires_at: i64::MAX,
        revoked: false,
        allowed_destinations: vec![],
        allowed_programs: vec![],
        bump,
    }
}

fn modify_ctx(signer: [u8; 32]) -> ModifyDelegation {
    let (vault_key, vault_bump) = vault_of(key(OWNER));
    let (delegation_key, delegation_bump) = delegation_of(vault_key, key(AGENT));
    ModifyDelegation {
        owner: signer,
        vault_key,
        vault: Vault { owner: key(OWNER), paused: false, bump: vault_bump },
        delegation_key,
        delegation: delegation(vault_key, delegation_bump),
    }
}

fn transfer_ctx(agent: [u8; 32]) -> AgentTransfer {
    let (vault_key, vault_bump) = vault_of(key(OWNER));
    let (delegation_key, delegation_bump) = delegation_of(vault_key, key(AGENT));
    AgentTransfer {
        agent,
        vault_key,
        vault: Vault { owner: key(OWNER), paused: false, bump: vault_bump },
        delegation_key,
        delegation: delegation(vault_key, delegation_bump),
        mint: key(MINT),
        mint_decimals: 6,
        vault_token_account: TokenAccountState { key: key(5), mint: key(MINT), owner: vault_key, amount: 1_000 },
        destination_token_account: TokenAccountState { key: key(6), mint: key(MINT), owner: key(7), amount: 0 },
    }
}

fn withdraw_ctx(signer: [u8; 32]) -> Withdraw {
    let (vault_key, vault_bump) = vault_of(key(OWNER));
    Withdraw {
        owner: signer,
        vault_key,
        vault: Vault { owner: key(OWNER), paused: false, bump: vault_bump },
        mint: key(MINT),
        mint_decimals: 6,
        vault_token_account: TokenAccountState { key: key(5), mint: key(MINT), owner: vault_key, amount: 1_000 },
        destination_token_account: TokenAccountState { key: key(6), mint: key(MINT), owner: key(7), amount: 0 },
    }
}

#[test]
fn owner_passes_the_constraints() {
    let id = program_id().to_bytes();
    modify_ctx(key(OWNER)).validate(&id).unwrap();
    transfer_ctx(key(AGENT)).validate(&id).unwrap();
    withdraw_ctx(key(OWNER)).validate(&id).unwrap();
}

#[test]
fn stranger_cannot_revoke() {
    let id = program_id().to_bytes();
    let m = modify_ctx(key(9));
    let r = m.validate(&id);
    assert_eq!(r, Err(ConstraintError::Seeds));
    assert!((2000..3000).contains(&r.unwrap_err().code()));
    assert!(!m.delegation.revoked);

    // Still usable by its agent.
    let mut t = transfer_ctx(key(AGENT));
    t.delegation = m.delegation;
    t.validate(&id).unwrap();
    agent_transfer(&mut t, 10, 0).unwrap();
    assert_eq!(t.delegation.total_spent, 10);
}

#[test]
fn stranger_cannot_pause() {
    let id = program_id().to_bytes();
    let (vault_key, vault_bump) = vault_of(key(OWNER));
    let ctx = OwnerOnly { owner: key(9), vault_key, vault: Vault { owner: key(OWNER), paused: false, bump: vault_bump } };
    assert!((2000..3000).contains(&ctx.validate(&id).unwrap_err().code()));
}

#[test]
fn vault_recording_another_owner_is_refused() {
    let id = program_id().to_bytes();
    let (vault_key, vault_bump) = vault_of(key(OWNER));
    let ctx = OwnerOnly { owner: key(OWNER), vault_key, vault: Vault { owner: key(8), paused: false, bump: vault_bump } };
    assert_eq!(ctx.validate(&id), Err(ConstraintError::HasOne));
    assert_eq!(ConstraintError::HasOne.code(), 2001);
}

#[test]
fn another_agent_cannot_spend_this_delegation() {
    let id = program_id().to_bytes();
    let t = transfer_ctx(key(9));
    let r = t.validate(&id);
    assert!((2000..3000).contains(&r.unwrap_err().code()));
    // Refused before anything runs: no spend recorded, no tokens moved.
    assert_eq!(t.delegation.total_spent, 0);
    assert_eq!(t.vault_token_account.amount, 1_000);
}

#[test]
fn delegation_of_another_mint_is_refused() {
    let id = program_id().to_bytes();
    let mut ctx = transfer_ctx(key(AGENT));
    ctx.delegation.mint = key(4);
    assert_eq!(ctx.validate(&id), Err(ConstraintError::HasOne));
}

#[test]
fn foreign_token_accounts_are_refused() {
    let id = program_id().to_bytes();
    let mut ctx = transfer_ctx(key(AGENT));
    ctx.vault_token_account.owner = key(7);
    assert_eq!(ctx.validate(&id), Err(ConstraintError::Custom(E::NotVaultTokenAccount)));
    let mut ctx = transfer_ctx(key(AGENT));
    ctx.destination_token_account.mint = key(4);
    assert_eq!(ctx.validate(&id), Err(ConstraintError::Custom(E::MintMismatch)));
    assert_eq!(ConstraintError::Custom(E::MintMismatch).code(), 6016);
}

#[test]
fn owner_can_withdraw_outside_any_policy() {
    let id = program_id().to_bytes();
    let ctx = withdraw_ctx(key(OWNER));
    ctx.validate(&id).unwrap();
    // 900 is far over the agent's 100 per-tx cap: the owner is not bound by it.
    let t = withdraw(&ctx, 900).unwrap();
    assert_eq!((t.from, t.to, t.amount), (key(5), key(6), 900));
    assert_eq!(t.authority, ctx.vault_key);
    assert_eq!(t.signer_seeds[2], vec![ctx.vault.bump]);
    assert_eq!(withdraw(&ctx, 0).err(), Some(E::ZeroAmount));
}

#[test]
fn agent_cannot_withdraw() {
    let id = program_id().to_bytes();
    assert!((2000..3000).contains(&withdraw_ctx(key(AGENT)).validate(&id).unwrap_err().code()));
}

#[test]
fn deposit_moves_owner_funds_into_the_vault() {
    let id = program_id().to_bytes();
    let (vault_key, vault_bump) = vault_of(key(OWNER));
    let ctx = Deposit {
        owner: key(OWNER),
        vault_key,
        vault: Vault { owner: key(OWNER), paused: false, bump: vault_bump },
        mint: key(MINT),
        mint_decimals: 6,
        owner_token_account: TokenAccountState { key: key(4), mint: key(MINT), owner: key(OWNER), amount: 1_000 },
        vault_token_account: TokenAccountState { key: key(5), mint: key(MINT), owner: vault_key, amount: 0 },
    };
    ctx.validate(&id).unwrap();
    let t = deposit(&ctx, 250).unwrap();
    assert_eq!((t.from, t.to, t.authority, t.amount), (key(4), key(5), key(OWNER), 250));
    assert!(t.signer_seeds.is_empty());
    assert_eq!(deposit(&ctx, 0).err(), Some(E::ZeroAmount));
}

#[test]
fn error_codes_follow_declaration_order() {
    assert_eq!(E::VaultPaused.code(), anchor_lang::error::ERROR_CODE_OFFSET);
    assert_eq!(E::MathOverflow.code(), 6011);
    assert_eq!(E::InvalidExpiry.code(), 6019);
    assert_eq!(ConstraintError::HasOne.code(), anchor_lang::error::ErrorCode::ConstraintHasOne as u32);
    assert_eq!(ConstraintError::Seeds.code(), anchor_lang::error::ErrorCode::ConstraintSeeds as u32);
}
