//! The measured call: each attack the guard exists for is refused with its
//! own error, and a call within budget is charged what left the vault.

use agent_wallet::errors::AgentWalletError as E;
use agent_wallet::guard::{
    authority_fingerprint, scope_siblings, token_amount, token_owner, AccountView, Snapshot,
};
use agent_wallet::program::{agent_invoke, agent_invoke_settle, AgentInvoke, TokenAccountState};
use agent_wallet::state::{Delegation, Vault};

const NOW: i64 = 1_000;
const START_BALANCE: u64 = 1_000;

fn key(b: u8) -> [u8; 32] {
    [b; 32]
}

const TOKEN_PROGRAM: u8 = 40;
const PROGRAM_ID: u8 = 41;
const VAULT: u8 = 10;
const MINT: u8 = 3;
const MINT_B: u8 = 4;

fn token_account_data(mint: [u8; 32], owner: [u8; 32], amount: u64) -> Vec<u8> {
    let mut d = vec![0u8; 165];
    d[0..32].copy_from_slice(&mint);
    d[32..64].copy_from_slice(&owner);
    d[64..72].copy_from_slice(&amount.to_le_bytes());
    d[108] = 1;
    d
}

fn token_account(k: u8, mint: u8, owner: u8, amount: u64) -> AccountView {
    AccountView {
        key: key(k),
        owner: key(TOKEN_PROGRAM),
        lamports: 10_000_000,
        data: token_account_data(key(mint), key(owner), amount),
        is_writable: true,
        executable: false,
    }
}

fn set_amount(a: &mut AccountView, amount: u64) {
    a.data[64..72].copy_from_slice(&amount.to_le_bytes());
}

fn delegation(allowed_programs: Vec<[u8; 32]>) -> Delegation {
    Delegation {
        vault: key(VAULT),
        agent: key(2),
        mint: key(MINT),
        per_tx_limit: 100,
        total_limit: 500,
        total_spent: 0,
        window_duration: 0,
        window_limit: 0,
        window_spent: 0,
        window_started_at: NOW,
        expires_at: i64::MAX,
        revoked: false,
        allowed_destinations: vec![],
        allowed_programs,
        bump: 254,
    }
}

fn invoke_ctx(allowed_programs: Vec<[u8; 32]>, target: u8) -> AgentInvoke {
    AgentInvoke {
        agent: key(2),
        vault_key: key(VAULT),
        vault: Vault { owner: key(1), paused: false, bump: 255 },
        delegation_key: key(11),
        delegation: delegation(allowed_programs),
        mint: key(MINT),
        vault_token_account: TokenAccountState { key: key(5), mint: key(MINT), owner: key(VAULT), amount: START_BALANCE },
        vault_token_account_info: token_account(5, MINT, VAULT, START_BALANCE),
        target_program: AccountView {
            key: key(target),
            owner: key(0),
            lamports: 1,
            data: vec![],
            is_writable: false,
            executable: true,
        },
    }
}

/// The accounts an SPL transfer out of `from` forwards, as the guard sees them.
fn forwarded(from: AccountView, to: AccountView) -> Vec<AccountView> {
    let vault = AccountView { key: key(VAULT), owner: key(0), lamports: 5, data: vec![], is_writable: false, executable: false };
    vec![from, to, vault]
}

#[test]
fn token_fields_are_read_from_the_layout() {
    let a = token_account(5, MINT, VAULT, 0x0102_0304_0506_0708);
    assert_eq!(token_owner(&a), Ok(key(VAULT)));
    assert_eq!(token_amount(&a), Ok(0x0102_0304_0506_0708));
    let mut short = a;
    short.data.truncate(164);
    assert_eq!(token_owner(&short), Err(E::NotVaultTokenAccount));
    assert_eq!(token_amount(&short), Err(E::NotVaultTokenAccount));
    assert_eq!(authority_fingerprint(&short), Err(E::NotVaultTokenAccount));
}

#[test]
fn fingerprint_covers_every_authority_field_and_not_the_amount() {
    let mut a = token_account(5, MINT, VAULT, 1);
    for i in 72..108 {
        a.data[i] = (i - 71) as u8;
    }
    for i in 121..165 {
        a.data[i] = i as u8;
    }
    let fp = authority_fingerprint(&a).unwrap();
    assert_eq!(&fp[0..32], &key(VAULT)[..]);
    assert_eq!(&fp[32..68], &a.data[72..108]);
    assert_eq!(&fp[68..112], &a.data[121..165]);
    let mut b = a.clone_for_test();
    set_amount(&mut b, 999);
    b.data[0] = 77; // the mint is not an authority field either
    assert_eq!(authority_fingerprint(&b).unwrap(), fp);
}

trait CloneForTest {
    fn clone_for_test(&self) -> Self;
}

impl CloneForTest for AccountView {
    fn clone_for_test(&self) -> Self {
        AccountView {
            key: self.key,
            owner: self.owner,
            lamports: self.lamports,
            data: self.data.clone(),
            is_writable: self.is_writable,
            executable: self.executable,
        }
    }
}

#[test]
fn invoke_within_budget_is_allowed() {
    let mut ctx = invoke_ctx(vec![key(TOKEN_PROGRAM)], TOKEN_PROGRAM);
    let fwd = forwarded(token_account(5, MINT, VAULT, START_BALANCE), token_account(6, MINT, 7, 0));
    let plan = agent_invoke(&ctx, &fwd, vec![3, 50, 0, 0, 0, 0, 0, 0, 0], NOW, &key(PROGRAM_ID)).unwrap();
    assert_eq!(plan.program_id, key(TOKEN_PROGRAM));
    assert_eq!(plan.data, vec![3, 50, 0, 0, 0, 0, 0, 0, 0]);
    assert_eq!(plan.accounts.len(), 3);
    assert!(plan.accounts[2].is_signer && !plan.accounts[0].is_signer && !plan.accounts[1].is_signer);
    assert!(plan.accounts[0].is_writable && !plan.accounts[2].is_writable);
    // The metered account is not its own sibling; the destination is someone else's.
    assert_eq!(plan.siblings.len(), 0);
    assert_eq!(plan.metered.amount, START_BALANCE);

    // The call moved 50.
    let mut after = token_account(5, MINT, VAULT, START_BALANCE);
    set_amount(&mut after, 950);
    agent_invoke_settle(&mut ctx.delegation, &plan, &after, &vec![], NOW).unwrap();
    assert_eq!(ctx.delegation.total_spent, 50, "the delta is what charges the budget");
}

#[test]
fn invoke_over_budget_is_rejected_and_reverted() {
    let mut ctx = invoke_ctx(vec![key(TOKEN_PROGRAM)], TOKEN_PROGRAM);
    let fwd = forwarded(token_account(5, MINT, VAULT, START_BALANCE), token_account(6, MINT, 7, 0));
    let plan = agent_invoke(&ctx, &fwd, vec![3], NOW, &key(PROGRAM_ID)).unwrap();
    let after = token_account(5, MINT, VAULT, START_BALANCE - 500); // per-tx cap is 100
    assert_eq!(agent_invoke_settle(&mut ctx.delegation, &plan, &after, &vec![], NOW), Err(E::ExceedsPerTxLimit));
    assert_eq!(ctx.delegation.total_spent, 0);
}

#[test]
fn approve_is_rejected() {
    let mut ctx = invoke_ctx(vec![key(TOKEN_PROGRAM)], TOKEN_PROGRAM);
    let fwd = forwarded(token_account(5, MINT, VAULT, START_BALANCE), token_account(6, MINT, 7, 0));
    let plan = agent_invoke(&ctx, &fwd, vec![4], NOW, &key(PROGRAM_ID)).unwrap();
    // Approve moves no tokens: it sets a delegate and a delegated amount.
    let mut after = token_account(5, MINT, VAULT, START_BALANCE);
    after.data[72] = 1;
    after.data[76..108].copy_from_slice(&key(66));
    after.data[121..129].copy_from_slice(&START_BALANCE.to_le_bytes());
    assert_eq!(agent_invoke_settle(&mut ctx.delegation, &plan, &after, &vec![], NOW), Err(E::AuthorityAltered));
    assert_eq!(ctx.delegation.total_spent, 0);
}

#[test]
fn draining_an_unmetered_mint_is_rejected() {
    let mut ctx = invoke_ctx(vec![key(TOKEN_PROGRAM)], TOKEN_PROGRAM);
    let fwd = forwarded(token_account(8, MINT_B, VAULT, START_BALANCE), token_account(9, MINT_B, 7, 0));
    let plan = agent_invoke(&ctx, &fwd, vec![3], NOW, &key(PROGRAM_ID)).unwrap();
    assert_eq!(plan.siblings.len(), 1);
    assert_eq!(plan.siblings[0].account, key(8));
    let metered_after = token_account(5, MINT, VAULT, START_BALANCE);
    let sibling_after = token_account(8, MINT_B, VAULT, 0);
    assert_eq!(
        agent_invoke_settle(&mut ctx.delegation, &plan, &metered_after, &vec![sibling_after], NOW),
        Err(E::UnmeteredHoldingFell)
    );
}

#[test]
fn vault_lamports_may_not_fall() {
    let mut ctx = invoke_ctx(vec![key(TOKEN_PROGRAM)], TOKEN_PROGRAM);
    let fwd = forwarded(token_account(5, MINT, VAULT, START_BALANCE), token_account(6, MINT, 7, 0));
    let plan = agent_invoke(&ctx, &fwd, vec![], NOW, &key(PROGRAM_ID)).unwrap();
    let mut after = token_account(5, MINT, VAULT, START_BALANCE);
    after.lamports -= 1;
    assert_eq!(agent_invoke_settle(&mut ctx.delegation, &plan, &after, &vec![], NOW), Err(E::VaultLamportsFell));
}

#[test]
fn a_call_that_moves_nothing_costs_nothing() {
    let mut ctx = invoke_ctx(vec![key(TOKEN_PROGRAM)], TOKEN_PROGRAM);
    ctx.delegation.total_spent = 500; // budget exhausted
    let fwd = forwarded(token_account(5, MINT, VAULT, START_BALANCE), token_account(6, MINT, 7, 0));
    let plan = agent_invoke(&ctx, &fwd, vec![], NOW, &key(PROGRAM_ID)).unwrap();
    let mut after = token_account(5, MINT, VAULT, START_BALANCE);
    set_amount(&mut after, START_BALANCE + 5); // it may even grow
    agent_invoke_settle(&mut ctx.delegation, &plan, &after, &vec![], NOW).unwrap();
    assert_eq!(ctx.delegation.total_spent, 500);
}

#[test]
fn program_must_be_allowlisted() {
    let ctx = invoke_ctx(vec![], TOKEN_PROGRAM);
    let fwd = forwarded(token_account(5, MINT, VAULT, START_BALANCE), token_account(6, MINT, 7, 0));
    assert_eq!(agent_invoke(&ctx, &fwd, vec![], NOW, &key(PROGRAM_ID)).err().map(|e| e.code()), Some(E::ProgramNotAllowed.code()));
}

#[test]
fn cannot_invoke_this_program() {
    let ctx = invoke_ctx(vec![key(PROGRAM_ID)], PROGRAM_ID);
    let fwd = forwarded(token_account(5, MINT, VAULT, START_BALANCE), token_account(6, MINT, 7, 0));
    assert_eq!(agent_invoke(&ctx, &fwd, vec![0u8; 8], NOW, &key(PROGRAM_ID)).err().map(|e| e.code()), Some(E::SelfInvokeForbidden.code()));
}

#[test]
fn target_must_be_executable() {
    let mut ctx = invoke_ctx(vec![key(TOKEN_PROGRAM)], TOKEN_PROGRAM);
    ctx.target_program.executable = false;
    assert_eq!(agent_invoke(&ctx, &vec![], vec![], NOW, &key(PROGRAM_ID)).err().map(|e| e.code()), Some(E::TargetNotExecutable.code()));
}

#[test]
fn revoked_or_paused_never_runs() {
    let mut ctx = invoke_ctx(vec![key(TOKEN_PROGRAM)], TOKEN_PROGRAM);
    ctx.delegation.revoked = true;
    assert_eq!(agent_invoke(&ctx, &vec![], vec![], NOW, &key(PROGRAM_ID)).err().map(|e| e.code()), Some(E::DelegationRevoked.code()));
    ctx.vault.paused = true;
    assert_eq!(agent_invoke(&ctx, &vec![], vec![], NOW, &key(PROGRAM_ID)).err().map(|e| e.code()), Some(E::VaultPaused.code()));
}

#[test]
fn siblings_are_scoped_once_each_and_only_the_vaults() {
    let metered = token_account(5, MINT, VAULT, 1);
    let mint_account = AccountView { key: key(20), owner: key(TOKEN_PROGRAM), lamports: 1, data: vec![0u8; 82], is_writable: false, executable: false };
    let foreign_program = AccountView { key: key(21), owner: key(99), lamports: 1, data: token_account_data(key(MINT_B), key(VAULT), 5), is_writable: true, executable: false };
    let fwd = vec![
        token_account(5, MINT, VAULT, 1),      // the metered account itself
        token_account(8, MINT_B, VAULT, 7),    // a sibling
        token_account(8, MINT_B, VAULT, 7),    // the same sibling again
        token_account(9, MINT_B, 7, 3),        // someone else's
        mint_account,                          // not a token account
        foreign_program,                       // another program's account
        token_account(12, MINT, VAULT, 11),    // a second sibling
    ];
    let s: Vec<Snapshot> = scope_siblings(&fwd, &metered, &key(VAULT));
    assert_eq!(s.len(), 2);
    assert_eq!((s[0].account, s[0].amount), (key(8), 7));
    assert_eq!((s[1].account, s[1].amount), (key(12), 11));
    assert_eq!(s[1].lamports, 10_000_000);
}

#[test]
fn snapshot_enforce_outcomes() {
    let before = token_account(5, MINT, VAULT, 100);
    let snap = Snapshot::take(&before).unwrap();
    let mut fell = token_account(5, MINT, VAULT, 60);
    assert_eq!(snap.enforce(&fell, true), Ok(40));
    assert_eq!(snap.enforce(&fell, false), Err(E::UnmeteredHoldingFell));
    set_amount(&mut fell, 130);
    assert_eq!(snap.enforce(&fell, true), Ok(0));
    assert_eq!(snap.enforce(&fell, false), Ok(0));
    fell.data[129] = 1; // a close authority appears
    assert_eq!(snap.enforce(&fell, true), Err(E::AuthorityAltered));
}

#[test]
fn inserting_non_siblings_keeps_the_scan() {
    let metered = token_account(5, MINT, VAULT, 1);
    let base = vec![token_account(8, MINT_B, VAULT, 7), token_account(12, MINT, VAULT, 11)];
    let keys = |v: &Vec<Snapshot>| v.iter().map(|s| s.account).collect::<Vec<_>>();
    let before = keys(&scope_siblings(&base, &metered, &key(VAULT)));
    let widened = vec![
        token_account(5, MINT, VAULT, 1),   // the metered account
        token_account(8, MINT_B, VAULT, 7),
        token_account(9, MINT_B, 7, 3),     // someone else's
        token_account(8, MINT_B, VAULT, 7), // a repeat
        token_account(12, MINT, VAULT, 11),
    ];
    assert_eq!(keys(&scope_siblings(&widened, &metered, &key(VAULT))), before);
    assert_eq!(before, vec![key(8), key(12)]);
}
