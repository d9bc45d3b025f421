//! The first form of the guard: a capped, measured call.

use agent_wallet::guard::AccountView;
use agent_wallet::spike::{process_instruction_settle, try_process_instruction, ProgramError};
use solana_program::pubkey::Pubkey;

const GUARD_ID: [u8; 32] = [7u8; 32];
const TOKEN_PROGRAM: [u8; 32] = [40u8; 32];
const START_BALANCE: u64 = 1_000;

fn vault_authority() -> ([u8; 32], u8) {
    let (v, b) = Pubkey::find_program_address(&[b"vault"], &Pubkey::new_from_array(GUARD_ID));
    (v.to_bytes(), b)
}

fn token_account(k: u8, owner: [u8; 32], amount: u64) -> AccountView {
    let mut d = vec![0u8; 165];
    d[0..32].copy_from_slice(&[3u8; 32]);
    d[32..64].copy_from_slice(&owner);
    d[64..72].copy_from_slice(&amount.to_le_bytes());
    d[108] = 1;
    AccountView { key: [k; 32], owner: TOKEN_PROGRAM, lamports: 10_000_000, data: d, is_writable: true, executable: false }
}

fn plain(key: [u8; 32]) -> AccountView {
    AccountView { key, owner: [0u8; 32], lamports: 10_000_000, data: vec![], is_writable: false, executable: false }
}

fn accounts(vault: [u8; 32]) -> Vec<AccountView> {
    vec![
        plain(vault),
        token_account(5, vault, START_BALANCE),
        AccountView { key: TOKEN_PROGRAM, owner: [0u8; 32], lamports: 1, data: vec![], is_writable: false, executable: true },
        token_account(5, vault, START_BALANCE),
        token_account(6, [9u8; 32], 0),
        plain(vault),
    ]
}

fn guarded_data(cap: u64, inner: &[u8]) -> Vec<u8> {
    let mut d = cap.to_le_bytes().to_vec();
    d.extend_from_slice(inner);
    d
}

fn after(vault: [u8; 32], amount: u64) -> AccountView {
    token_account(5, vault, amount)
}

#[test]
fn delta_within_budget_is_allowed() {
    let (vault, bump) = vault_authority();
    let plan = try_process_instruction(&GUARD_ID, &accounts(vault), &guarded_data(100, &[3, 50])).unwrap().unwrap();
    assert_eq!(plan.cap, 100);
    assert_eq!(plan.data, vec![3, 50]);
    assert_eq!(plan.program_id, TOKEN_PROGRAM);
    assert_eq!(plan.signer_seeds, vec![b"vault".to_vec(), vec![bump]]);
    assert_eq!(plan.accounts.len(), 3);
    assert!(plan.accounts[2].is_signer);
    assert_eq!(plan.before, START_BALANCE);
    assert_eq!(process_instruction_settle(&plan, &after(vault, 950), &vec![]), Ok(()));
}

#[test]
fn delta_over_budget_is_rejected_and_reverted() {
    let (vault, _) = vault_authority();
    let plan = try_process_instruction(&GUARD_ID, &accounts(vault), &guarded_data(100, &[3])).unwrap().unwrap();
    assert_eq!(process_instruction_settle(&plan, &after(vault, 500), &vec![]), Err(ProgramError::Custom(1)));
}

#[test]
fn approve_no_longer_slips_past_the_delta_check() {
    let (vault, _) = vault_authority();
    let plan = try_process_instruction(&GUARD_ID, &accounts(vault), &guarded_data(100, &[4])).unwrap().unwrap();
    let mut a = after(vault, START_BALANCE);
    a.data[72] = 1;
    a.data[121..129].copy_from_slice(&START_BALANCE.to_le_bytes());
    assert_eq!(process_instruction_settle(&plan, &a, &vec![]), Err(ProgramError::Custom(2)));
}

#[test]
fn unmetered_mint_no_longer_drains_freely() {
    let (vault, _) = vault_authority();
    let mut accts = accounts(vault);
    accts.push(token_account(8, vault, 10_000_000));
    let plan = try_process_instruction(&GUARD_ID, &accts, &guarded_data(100, &[3])).unwrap().unwrap();
    assert_eq!(plan.siblings.len(), 1);
    let sibling_after = token_account(8, vault, 0);
    assert_eq!(
        process_instruction_settle(&plan, &after(vault, START_BALANCE), &vec![sibling_after]),
        Err(ProgramError::Custom(3))
    );
}

#[test]
fn malformed_requests_are_refused() {
    let (vault, _) = vault_authority();
    let r = try_process_instruction(&GUARD_ID, &accounts(vault), &vec![1, 2, 3]).unwrap();
    assert_eq!(r.err(), Some(ProgramError::InvalidInstructionData));
    let r = try_process_instruction(&GUARD_ID, &accounts(vault)[..2].to_vec_for_test(), &guarded_data(1, &[])).unwrap();
    assert_eq!(r.err(), Some(ProgramError::NotEnoughAccountKeys));
    let mut wrong = accounts(vault);
    wrong[0] = plain([1u8; 32]);
    let r = try_process_instruction(&GUARD_ID, &wrong, &guarded_data(1, &[])).unwrap();
    assert_eq!(r.err(), Some(ProgramError::InvalidSeeds));
    let mut foreign = accounts(vault);
    foreign[1] = token_account(5, [1u8; 32], START_BALANCE);
    let r = try_process_instruction(&GUARD_ID, &foreign, &guarded_data(1, &[])).unwrap();
    assert_eq!(r.err(), Some(ProgramError::IllegalOwner));
}

trait ToVecForTest {
    fn to_vec_for_test(&self) -> Vec<AccountView>;
}

impl ToVecForTest for [AccountView] {
    fn to_vec_for_test(&self) -> Vec<AccountView> {
        self.iter()
            .map(|a| AccountView {
                key: a.key,
                owner: a.owner,
                lamports: a.lamports,
                data: a.data.clone(),
                is_writable: a.is_writable,
                executable: a.executable,
            })
            .collect()
    }
}

#[test]
fn malformed_requests_are_refused_before_the_address_is_derived() {
    let (vault, _) = vault_authority();
    let r = try_process_instruction(&GUARD_ID, &vec![plain(vault)], &vec![0u8; 8]);
    assert_eq!(r.map(|x| x.err()), Some(Some(ProgramError::NotEnoughAccountKeys)));
}
