//! ## Guard
//!
//! The measurement behind `agent_invoke`: it never parses the instruction it
//! executes. It measures the vault's state before and after and judges the
//! difference. That is what lets it work against programs that did not exist
//! when it was written, and it means every field left unmeasured is a hole:
//! authority grants, sibling mints and native SOL are all measured here.
//!
//! SPL token account layout, read directly from the account data:
//!
//!   [0..32]    mint
//!   [32..64]   owner
//!   [64..72]   amount           (u64 LE)
//!   [72..108]  delegate         (COption tag + pubkey)
//!   [108]      state
//!   [121..129] delegated_amount (u64 LE)
//!   [129..165] close_authority  (COption tag + pubkey)

use vstd::prelude::*;

use crate::errors::AgentWalletError;
use crate::keys::{Key, key_eq, key_from_slice};

verus! {

pub const TOKEN_ACCOUNT_LEN: usize = 165;

pub const FINGERPRINT_LEN: usize = 112;

/// What the guard reads of an account at one moment: its address, the
/// program that owns it, its lamports, its data, and how it is passed on.
pub struct AccountView {
    pub key: Key,
    /// The program that owns the account (the token program, for a token
    /// account).
    pub owner: Key,
    pub lamports: u64,
    pub data: Vec<u8>,
    pub is_writable: bool,
    pub executable: bool,
}

// ## Little-endian integers

/// 256 to the power `n`.
pub open spec fn pow256(n: nat) -> nat
    decreases n,
{
    if n == 0 {
        1
    } else {
        256 * pow256((n - 1) as nat)
    }
}

/// The unsigned integer that the bytes `s` encode, least significant first.
pub open spec fn le_value(s: Seq<u8>) -> nat
    decreases s.len(),
{
    if s.len() == 0 {
        0
    } else {
        s[0] as nat + 256 * le_value(s.drop_first())
    }
}

pub proof fn lemma_le_value_bound(s: Seq<u8>)
    ensures
        le_value(s) < pow256(s.len()),
    decreases s.len(),
{
    if s.len() > 0 {
        lemma_le_value_bound(s.drop_first());
    }
}

/// Eight little-endian bytes encode the sum of each byte times its place
/// value.
pub proof fn lemma_le_value_of_eight_bytes(s: Seq<u8>)
    requires
        s.len() == 8,
    ensures
        le_value(s) == s[0] + 0x100 * s[1] + 0x1_0000 * s[2] + 0x100_0000 * s[3] + 0x1_0000_0000 * s[4]
            + 0x100_0000_0000 * s[5] + 0x1_0000_0000_0000 * s[6] + 0x100_0000_0000_0000 * s[7],
{
    reveal_with_fuel(le_value, 9);
    let s1 = s.drop_first();
    let s2 = s1.drop_first();
    let s3 = s2.drop_first();
    let s4 = s3.drop_first();
    let s5 = s4.drop_first();
    let s6 = s5.drop_first();
    let s7 = s6.drop_first();
    let s8 = s7.drop_first();
    assert(s8.len() == 0);
    assert(le_value(s8) == 0);
    assert(le_value(s7) == s[7]);
    assert(le_value(s6) == s[6] + 256 * s[7]);
    assert(le_value(s5) == s[5] + 256 * (s[6] + 256 * s[7]));
    assert(le_value(s4) == s[4] + 256 * (s[5] + 256 * (s[6] + 256 * s[7])));
    assert(le_value(s3) == s[3] + 256 * (s[4] + 256 * (s[5] + 256 * (s[6] + 256 * s[7]))));
    assert(le_value(s2) == s[2] + 256 * (s[3] + 256 * (s[4] + 256 * (s[5] + 256 * (s[6] + 256
        * s[7])))));
    assert(le_value(s1) == s[1] + 256 * (s[2] + 256 * (s[3] + 256 * (s[4] + 256 * (s[5] + 256 * (
    s[6] + 256 * s[7]))))));
}

/// Reads the little-endian `u64` stored at `data[start..start + 8]`.
pub fn read_u64_le(data: &Vec<u8>, start: usize) -> (v: u64)
    requires
        start + 8 <= data.len(),
    ensures
        v == le_value(data@.subrange(start as int, start + 8)),
{
    proof { lemma_pow256_values(); }
    let mut acc: u64 = 0;
    let mut i: usize = 8;
    proof {
        assert(data@.subrange(start + 8, start + 8) =~= Seq::<u8>::empty());
    }
    while i > 0
        invariant
            0 <= i <= 8,
            start + 8 <= data.len(),
            acc == le_value(data@.subrange(start + i, start + 8)),
            pow256(8) == 0x1_0000_0000_0000_0000,
            pow256(7) == 0x100_0000_0000_0000,
        decreases i,
    {
        let ghost tail = data@.subrange(start + i, start + 8);
        let ghost next = data@.subrange(start + i - 1, start + 8);
        proof {
            lemma_le_value_bound(tail);
            assert(next.drop_first() =~= tail);
            assert(next[0] == data@[start + i - 1]);
            assert(tail.len() <= 7);
            lemma_pow256_monotone(tail.len(), 7);
        }
        acc = acc * 256 + data[start + i - 1] as u64;
        i = i - 1;
    }
    acc
}

proof fn lemma_pow256_values()
    ensures
        pow256(7) == 0x100_0000_0000_0000,
        pow256(8) == 0x1_0000_0000_0000_0000,
{
    reveal_with_fuel(pow256, 9);
}

proof fn lemma_pow256_monotone(a: nat, b: nat)
    requires
        a <= b,
    ensures
        pow256(a) <= pow256(b),
    decreases b,
{
    if a < b {
        lemma_pow256_monotone(a, (b - 1) as nat);
    }
}

// ## Token account fields

/// The token account's `owner` field.
pub open spec fn owner_field(data: Seq<u8>) -> Seq<u8> {
    data.subrange(32, 64)
}

/// The token account's `amount` field.
pub open spec fn amount_field(data: Seq<u8>) -> nat {
    le_value(data.subrange(64, 72))
}

/// Every field granting standing power over the account, concatenated:
/// owner, delegate, delegated amount and close authority. `amount` is
/// deliberately excluded: that one may change, and the balance delta is what
/// bounds it.
pub open spec fn fingerprint_bytes(data: Seq<u8>) -> Seq<u8> {
    data.subrange(32, 64) + data.subrange(72, 108) + data.subrange(121, 129) + data.subrange(
        129,
        165,
    )
}

/// The token account owner recorded in the account data.
pub fn token_owner(ai: &AccountView) -> (r: Result<Key, AgentWalletError>)
    ensures
        r is Ok <==> ai.data@.len() >= TOKEN_ACCOUNT_LEN,
        r matches Ok(k) ==> k@ == owner_field(ai.data@),
        r matches Err(e) ==> e == AgentWalletError::NotVaultTokenAccount,
        r is Ok <==> ai.data@.len() >= 165,
        r matches Ok(k) ==> k@ == ai.data@.subrange(32, 64),
{
    if !(ai.data.len() >= TOKEN_ACCOUNT_LEN) {
        return Err(AgentWalletError::NotVaultTokenAccount);
    }
    Ok(key_from_slice(&ai.data, 32))
}

/// The token balance recorded in the account data.
pub fn token_amount(ai: &AccountView) -> (r: Result<u64, AgentWalletError>)
    ensures
        r is Ok <==> ai.data@.len() >= TOKEN_ACCOUNT_LEN,
        r matches Ok(a) ==> a == amount_field(ai.data@),
        r matches Err(e) ==> e == AgentWalletError::NotVaultTokenAccount,
        r is Ok <==> ai.data@.len() >= 165,
        r matches Ok(a) ==> a == ai.data@[64] + 0x100 * ai.data@[65] + 0x1_0000 * ai.data@[66]
            + 0x100_0000 * ai.data@[67] + 0x1_0000_0000 * ai.data@[68] + 0x100_0000_0000
            * ai.data@[69] + 0x1_0000_0000_0000 * ai.data@[70] + 0x100_0000_0000_0000 * ai.data@[71],
{
    if !(ai.data.len() >= TOKEN_ACCOUNT_LEN) {
        return Err(AgentWalletError::NotVaultTokenAccount);
    }
    proof {
        lemma_le_value_of_eight_bytes(ai.data@.subrange(64, 72));
    }
    Ok(read_u64_le(&ai.data, 64))
}

/// Where byte `i` of the fingerprint comes from in the account data.
pub open spec fn fingerprint_source(i: int) -> int {
    if i < 32 {
        32 + i
    } else if i < 68 {
        72 + (i - 32)
    } else {
        121 + (i - 68)
    }
}

/// ## Authority fingerprint
///
/// This is what closes the `approve` hole. A balance delta measures value
/// leaving; `approve` and `set_authority` grant the right to take it later, at
/// zero delta. Snapshot these fields and require them unchanged.
pub fn authority_fingerprint(ai: &AccountView) -> (r: Result<
    [u8; FINGERPRINT_LEN],
    AgentWalletError,
>)
    ensures
        r is Ok <==> ai.data@.len() >= TOKEN_ACCOUNT_LEN,
        r matches Ok(fp) ==> fp@ == fingerprint_bytes(ai.data@),
        r matches Err(e) ==> e == AgentWalletError::NotVaultTokenAccount,
        r is Ok <==> ai.data@.len() >= 165,
        r matches Ok(fp) ==> fp@.len() == 112 && fp@.subrange(0, 32) == ai.data@.subrange(32, 64)
            && fp@.subrange(32, 68) == ai.data@.subrange(72, 108) && fp@.subrange(68, 112)
            == ai.data@.subrange(121, 165),
{
    if !(ai.data.len() >= TOKEN_ACCOUNT_LEN) {
        return Err(AgentWalletError::NotVaultTokenAccount);
    }
    let mut fp = [0u8; FINGERPRINT_LEN];
    let mut i: usize = 0;
    while i < FINGERPRINT_LEN
        invariant
            0 <= i <= FINGERPRINT_LEN,
            ai.data@.len() >= TOKEN_ACCOUNT_LEN,
            fp@.len() == FINGERPRINT_LEN,
            forall|j: int| 0 <= j < i ==> fp@[j] == ai.data@[fingerprint_source(j)],
        decreases FINGERPRINT_LEN - i,
    {
        let src: usize = if i < 32 {
            32 + i
        } else if i < 68 {
            72 + (i - 32)
        } else {
            121 + (i - 68)
        };
        fp[i] = ai.data[src];
        i = i + 1;
    }
    assert(fp@ =~= fingerprint_bytes(ai.data@));
    assert(fp@.subrange(0, 32) =~= ai.data@.subrange(32, 64));
    assert(fp@.subrange(32, 68) =~= ai.data@.subrange(72, 108));
    assert(fp@.subrange(68, 112) =~= ai.data@.subrange(121, 165));
    Ok(fp)
}

// ## Snapshots

/// One vault-owned account under observation across the call.
pub struct Snapshot {
    /// The address of the observed account.
    pub account: Key,
    pub amount: u64,
    pub fingerprint: [u8; FINGERPRINT_LEN],
    pub lamports: u64,
}

/// `s` records the state that `a` is in.
pub open spec fn snapshot_of(s: Snapshot, a: AccountView) -> bool {
    &&& a.data@.len() >= TOKEN_ACCOUNT_LEN
    &&& s.account == a.key
    &&& s.amount == amount_field(a.data@)
    &&& s.fingerprint@ == fingerprint_bytes(a.data@)
    &&& s.lamports == a.lamports
}

/// What re-measuring an account against its snapshot decides: the authority
/// fingerprint must be unchanged and the lamports must not have fallen; a
/// metered account reports how much its balance fell, any other account must
/// not have fallen at all.
pub open spec fn enforce_result(s: Snapshot, now: AccountView, metered: bool) -> Result<
    u64,
    AgentWalletError,
> {
    if now.data@.len() < TOKEN_ACCOUNT_LEN {
        Err(AgentWalletError::NotVaultTokenAccount)
    } else if fingerprint_bytes(now.data@) != s.fingerprint@ {
        Err(AgentWalletError::AuthorityAltered)
    } else if now.lamports < s.lamports {
        Err(AgentWalletError::VaultLamportsFell)
    } else if !metered {
        if amount_field(now.data@) < s.amount {
            Err(AgentWalletError::UnmeteredHoldingFell)
        } else {
            Ok(0)
        }
    } else if amount_field(now.data@) <= s.amount {
        Ok((s.amount - amount_field(now.data@)) as u64)
    } else {
        Ok(0)
    }
}

/// The re-measurement accepts exactly an account that is still a readable
/// token account, kept every authority field, and lost no lamports; an
/// unmetered account must also not have fallen (growing is fine). It reports
/// what the balance fell by for a metered account, and nothing otherwise.
pub proof fn lemma_enforce_accepts_iff_kept(s: Snapshot, now: AccountView, metered: bool)
    ensures
        enforce_result(s, now, metered) is Ok <==> {
            &&& now.data@.len() >= 165
            &&& fingerprint_bytes(now.data@) == s.fingerprint@
            &&& now.lamports >= s.lamports
            &&& !metered ==> amount_field(now.data@) >= s.amount
        },
        enforce_result(s, now, metered) matches Ok(spent) ==> spent == if metered
            && amount_field(now.data@) < s.amount {
            s.amount - amount_field(now.data@)
        } else {
            0
        },
{
}

impl Snapshot {
    /// Measure an account: balance, authority fingerprint and lamports.
    pub fn take(account: &AccountView) -> (r: Result<Snapshot, AgentWalletError>)
        ensures
            r is Ok <==> account.data@.len() >= TOKEN_ACCOUNT_LEN,
            r matches Ok(s) ==> snapshot_of(s, *account),
            r matches Err(e) ==> e == AgentWalletError::NotVaultTokenAccount,
    {
        let amount = token_amount(account)?;
        let fingerprint = authority_fingerprint(account)?;
        Ok(Snapshot { account: account.key, amount, fingerprint, lamports: account.lamports })
    }

    /// Re-measure the same account (`now` is its state after the call) and
    /// enforce the invariants that hold for every vault account, returning
    /// how much left it. `metered` accounts are allowed to fall (the caller
    /// bounds by how much); the rest may grow but must not shrink.
    pub fn enforce(&self, now: &AccountView, metered: bool) -> (r: Result<u64, AgentWalletError>)
        requires
            now.key == self.account,
        ensures
            r == enforce_result(*self, *now, metered),
            r is Ok <==> {
                &&& now.data@.len() >= 165
                &&& fingerprint_bytes(now.data@) == self.fingerprint@
                &&& now.lamports >= self.lamports
                &&& !metered ==> amount_field(now.data@) >= self.amount
            },
            r matches Ok(spent) ==> spent == if metered && amount_field(now.data@) < self.amount {
                self.amount - amount_field(now.data@)
            } else {
                0
            },
    {
        proof {
            lemma_enforce_accepts_iff_kept(*self, *now, metered);
        }
        let fp = authority_fingerprint(now)?;
        if !fingerprint_eq(&fp, &self.fingerprint) {
            return Err(AgentWalletError::AuthorityAltered);
        }
        if !(now.lamports >= self.lamports) {
            return Err(AgentWalletError::VaultLamportsFell);
        }
        let after = token_amount(now)?;
        if !metered {
            if !(after >= self.amount) {
                return Err(AgentWalletError::UnmeteredHoldingFell);
            }
            return Ok(0);
        }
        Ok(self.amount.saturating_sub(after))
    }
}

/// Byte-wise comparison of two fingerprints.
pub fn fingerprint_eq(a: &[u8; FINGERPRINT_LEN], b: &[u8; FINGERPRINT_LEN]) -> (r: bool)
    ensures
        r == (a@ == b@),
{
    let mut i: usize = 0;
    while i < FINGERPRINT_LEN
        invariant
            0 <= i <= FINGERPRINT_LEN,
            a@.len() == FINGERPRINT_LEN,
            b@.len() == FINGERPRINT_LEN,
            forall|j: int| 0 <= j < i ==> a@[j] == b@[j],
        decreases FINGERPRINT_LEN - i,
    {
        if a[i] != b[i] {
            assert(a@[i as int] != b@[i as int]);
            return false;
        }
        i = i + 1;
    }
    assert(a@ =~= b@);
    true
}

// ## Laws of the measurement

/// No standing authority passes the guard: if an account re-measured after
/// the call is accepted against its snapshot, then its owner, delegate,
/// delegated amount and close authority are byte for byte what they were
/// before, and its lamports did not fall. So `approve` and `set_authority`
/// are refused even though they move no tokens.
pub proof fn lemma_accepted_account_kept_its_authority(
    s: Snapshot,
    before: AccountView,
    after: AccountView,
    metered: bool,
)
    requires
        snapshot_of(s, before),
        enforce_result(s, after, metered) is Ok,
    ensures
        after.data@.subrange(32, 64) == before.data@.subrange(32, 64),
        after.data@.subrange(72, 108) == before.data@.subrange(72, 108),
        after.data@.subrange(121, 129) == before.data@.subrange(121, 129),
        after.data@.subrange(129, 165) == before.data@.subrange(129, 165),
        after.lamports >= before.lamports,
{
    let fa = fingerprint_bytes(after.data@);
    let fb = fingerprint_bytes(before.data@);
    assert(fa == fb);
    assert(fa.subrange(0, 32) =~= after.data@.subrange(32, 64));
    assert(fb.subrange(0, 32) =~= before.data@.subrange(32, 64));
    assert(fa.subrange(32, 68) =~= after.data@.subrange(72, 108));
    assert(fb.subrange(32, 68) =~= before.data@.subrange(72, 108));
    assert(fa.subrange(68, 76) =~= after.data@.subrange(121, 129));
    assert(fb.subrange(68, 76) =~= before.data@.subrange(121, 129));
    assert(fa.subrange(76, 112) =~= after.data@.subrange(129, 165));
    assert(fb.subrange(76, 112) =~= before.data@.subrange(129, 165));
}

/// What the guard charges is exactly what left: an accepted metered account
/// reports the fall of its balance (zero if it grew), and an accepted
/// unmetered account did not fall and reports nothing.
pub proof fn lemma_charge_is_the_balance_fall(s: Snapshot, before: AccountView, after: AccountView, metered: bool)
    requires
        snapshot_of(s, before),
        enforce_result(s, after, metered) is Ok,
    ensures
        metered ==> enforce_result(s, after, metered) == Ok::<u64, AgentWalletError>(
            if amount_field(after.data@) <= amount_field(before.data@) {
                (amount_field(before.data@) - amount_field(after.data@)) as u64
            } else {
                0
            },
        ),
        !metered ==> amount_field(after.data@) >= amount_field(before.data@)
            && enforce_result(s, after, metered) == Ok::<u64, AgentWalletError>(0),
{
}

// ## Scope every other vault holding the call can reach

/// `a` is another token account of the vault: not the metered account, owned
/// by the same token program as the metered account, long enough to be a
/// token account, and recording the vault as its owner.
pub open spec fn is_sibling(a: AccountView, metered: AccountView, vault: Key) -> bool {
    &&& a.key != metered.key
    &&& a.owner == metered.owner
    &&& a.data@.len() >= TOKEN_ACCOUNT_LEN
    &&& owner_field(a.data@) == vault@
}

/// The positions in `forwarded` that get a snapshot: each sibling, the first
/// time its address appears.
pub open spec fn sibling_positions(forwarded: Seq<AccountView>, metered: AccountView, vault: Key) -> Seq<int>
    decreases forwarded.len(),
{
    if forwarded.len() == 0 {
        Seq::empty()
    } else {
        let prev = sibling_positions(forwarded.drop_last(), metered, vault);
        let i = forwarded.len() - 1;
        if is_sibling(forwarded[i], metered, vault) && !(exists|j: int|
            0 <= j < prev.len() && #[trigger] forwarded[prev[j]].key == forwarded[i].key) {
            prev.push(i)
        } else {
            prev
        }
    }
}

/// The positions are in range and increasing.
pub proof fn lemma_sibling_positions_ordered(forwarded: Seq<AccountView>, metered: AccountView, vault: Key)
    ensures
        forall|j: int|
            0 <= j < sibling_positions(forwarded, metered, vault).len() ==> 0 <= #[trigger] sibling_positions(
                forwarded,
                metered,
                vault,
            )[j] < forwarded.len(),
        forall|j: int, k: int|
            0 <= j < k < sibling_positions(forwarded, metered, vault).len() ==> sibling_positions(
                forwarded,
                metered,
                vault,
            )[j] < sibling_positions(forwarded, metered, vault)[k],
    decreases forwarded.len(),
{
    if forwarded.len() > 0 {
        let pre = forwarded.drop_last();
        lemma_sibling_positions_ordered(pre, metered, vault);
        let prev = sibling_positions(pre, metered, vault);
        let cur = sibling_positions(forwarded, metered, vault);
        if cur.len() != prev.len() {
            assert(cur == prev.push(forwarded.len() - 1));
            assert forall|j: int| 0 <= j < cur.len() implies 0 <= #[trigger] cur[j] < forwarded.len() by {
                if j < prev.len() {
                    assert(cur[j] == prev[j]);
                }
            }
            assert forall|j: int, k: int| 0 <= j < k < cur.len() implies cur[j] < cur[k] by {
                assert(cur[j] == prev[j]);
                if k < prev.len() {
                    assert(cur[k] == prev[k]);
                }
            }
        } else {
            assert(cur == prev);
        }
    }
}

/// Taking one more account into the scan keeps what the shorter scan found.
proof fn lemma_positions_of_prefix(forwarded: Seq<AccountView>, metered: AccountView, vault: Key)
    requires
        forwarded.len() > 0,
    ensures
        ({
            let prev = sibling_positions(forwarded.drop_last(), metered, vault);
            let cur = sibling_positions(forwarded, metered, vault);
            &&& prev.len() <= cur.len() <= prev.len() + 1
            &&& forall|j: int| 0 <= j < prev.len() ==> cur[j] == prev[j]
            &&& forall|j: int| 0 <= j < prev.len() ==> forwarded.drop_last()[prev[j]] == forwarded[prev[j]]
        }),
{
    lemma_sibling_positions_ordered(forwarded.drop_last(), metered, vault);
}

/// Soundness: every snapshotted account is a sibling of the metered account.
pub proof fn lemma_siblings_sound(forwarded: Seq<AccountView>, metered: AccountView, vault: Key)
    ensures
        forall|j: int|
            0 <= j < sibling_positions(forwarded, metered, vault).len() ==> is_sibling(
                forwarded[#[trigger] sibling_positions(forwarded, metered, vault)[j]],
                metered,
                vault,
            ),
    decreases forwarded.len(),
{
    if forwarded.len() > 0 {
        lemma_siblings_sound(forwarded.drop_last(), metered, vault);
        lemma_positions_of_prefix(forwarded, metered, vault);
    }
}

/// No address is snapshotted twice.
pub proof fn lemma_siblings_distinct(forwarded: Seq<AccountView>, metered: AccountView, vault: Key)
    ensures
        forall|j: int, k: int|
            0 <= j < k < sibling_positions(forwarded, metered, vault).len() ==> forwarded[sibling_positions(
                forwarded,
                metered,
                vault,
            )[j]].key != forwarded[sibling_positions(forwarded, metered, vault)[k]].key,
    decreases forwarded.len(),
{
    if forwarded.len() > 0 {
        lemma_siblings_distinct(forwarded.drop_last(), metered, vault);
        lemma_positions_of_prefix(forwarded, metered, vault);
        let prev = sibling_positions(forwarded.drop_last(), metered, vault);
        let cur = sibling_positions(forwarded, metered, vault);
        assert forall|j: int, k: int| 0 <= j < k < cur.len() implies forwarded[cur[j]].key
            != forwarded[cur[k]].key by {
            if k == prev.len() {
                assert(cur[k] == forwarded.len() - 1);
                assert(forwarded[prev[j]].key != forwarded[forwarded.len() - 1].key);
            }
        }
    }
}

/// Completeness: every sibling anywhere in `forwarded` has its address among
/// the snapshots. A call can only touch accounts passed to it, so nothing it
/// could drain escapes the scan.
pub proof fn lemma_siblings_complete(forwarded: Seq<AccountView>, metered: AccountView, vault: Key)
    ensures
        forall|i: int|
            0 <= i < forwarded.len() && is_sibling(#[trigger] forwarded[i], metered, vault) ==> exists|j: int|
                0 <= j < sibling_positions(forwarded, metered, vault).len() && forwarded[sibling_positions(
                    forwarded,
                    metered,
                    vault,
                )[j]].key == forwarded[i].key,
    decreases forwarded.len(),
{
    if forwarded.len() > 0 {
        let pre = forwarded.drop_last();
        lemma_siblings_complete(pre, metered, vault);
        lemma_positions_of_prefix(forwarded, metered, vault);
        let prev = sibling_positions(pre, metered, vault);
        let cur = sibling_positions(forwarded, metered, vault);
        assert forall|i: int| 0 <= i < forwarded.len() && is_sibling(#[trigger] forwarded[i], metered, vault)
            implies exists|j: int| 0 <= j < cur.len() && forwarded[cur[j]].key == forwarded[i].key by {
            if i < forwarded.len() - 1 {
                assert(pre[i] == forwarded[i]);
                assert(is_sibling(pre[i], metered, vault));
                let j = choose|j: int| 0 <= j < prev.len() && pre[prev[j]].key == pre[i].key;
                assert(cur[j] == prev[j]);
                assert(forwarded[cur[j]].key == forwarded[i].key);
            } else {
                if cur.len() == prev.len() + 1 {
                    assert(forwarded[cur[prev.len() as int]].key == forwarded[i].key);
                } else {
                    let j = choose|j: int| 0 <= j < prev.len() && #[trigger] forwarded[prev[j]].key == forwarded[forwarded.len() - 1].key;
                    assert(cur[j] == prev[j]);
                }
            }
        }
    }
}

/// The addresses the sibling scan snapshots, in order: each sibling's
/// address the first time it appears.
pub open spec fn sibling_keys(forwarded: Seq<AccountView>, metered: AccountView, vault: Key) -> Seq<Key>
    decreases forwarded.len(),
{
    if forwarded.len() == 0 {
        Seq::empty()
    } else {
        let prev = sibling_keys(forwarded.drop_last(), metered, vault);
        let a = forwarded.last();
        if is_sibling(a, metered, vault) && !prev.contains(a.key) {
            prev.push(a.key)
        } else {
            prev
        }
    }
}

/// The snapshotted positions hold exactly the snapshotted addresses.
pub proof fn lemma_sibling_keys_at_positions(forwarded: Seq<AccountView>, metered: AccountView, vault: Key)
    ensures
        sibling_keys(forwarded, metered, vault).len() == sibling_positions(forwarded, metered, vault).len(),
        forall|j: int|
            0 <= j < sibling_keys(forwarded, metered, vault).len() ==> #[trigger] sibling_keys(
                forwarded,
                metered,
                vault,
            )[j] == forwarded[sibling_positions(forwarded, metered, vault)[j]].key,
    decreases forwarded.len(),
{
    if forwarded.len() > 0 {
        let pre = forwarded.drop_last();
        lemma_sibling_keys_at_positions(pre, metered, vault);
        lemma_positions_of_prefix(forwarded, metered, vault);
        let prev_k = sibling_keys(pre, metered, vault);
        let prev_p = sibling_positions(pre, metered, vault);
        let a = forwarded.last();
        let i = forwarded.len() - 1;
        assert(a == forwarded[i]);
        let dup_p = exists|j: int| 0 <= j < prev_p.len() && #[trigger] forwarded[prev_p[j]].key == forwarded[i].key;
        assert(prev_k.contains(a.key) == dup_p) by {
            if prev_k.contains(a.key) {
                let j = choose|j: int| 0 <= j < prev_k.len() && prev_k[j] == a.key;
                assert(pre[prev_p[j]] == forwarded[prev_p[j]]);
                assert(forwarded[prev_p[j]].key == forwarded[i].key);
            }
            if dup_p {
                let j = choose|j: int| 0 <= j < prev_p.len() && #[trigger] forwarded[prev_p[j]].key == forwarded[i].key;
                assert(pre[prev_p[j]] == forwarded[prev_p[j]]);
                assert(prev_k[j] == a.key);
            }
        }
        let cur_k = sibling_keys(forwarded, metered, vault);
        let cur_p = sibling_positions(forwarded, metered, vault);
        assert forall|j: int| 0 <= j < cur_k.len() implies #[trigger] cur_k[j] == forwarded[cur_p[j]].key by {
            if j < prev_k.len() {
                assert(pre[prev_p[j]] == forwarded[prev_p[j]]);
            }
        }
    }
}

/// Scanning the first `n + 1` accounts of the list with `x` inserted at `p`
/// snapshots what scanning the first `n` accounts of the list does.
proof fn lemma_insert_stable_upto(
    forwarded: Seq<AccountView>,
    metered: AccountView,
    vault: Key,
    p: int,
    x: AccountView,
    n: int,
)
    requires
        0 <= p <= n <= forwarded.len(),
        !is_sibling(x, metered, vault) || sibling_keys(forwarded.take(p), metered, vault).contains(x.key),
    ensures
        sibling_keys(forwarded.insert(p, x).take(n + 1), metered, vault) == sibling_keys(
            forwarded.take(n),
            metered,
            vault,
        ),
    decreases n - p,
{
    let ins = forwarded.insert(p, x);
    if n == p {
        assert(ins.take(n + 1).drop_last() =~= forwarded.take(p));
        assert(ins.take(n + 1).last() == x);
    } else {
        lemma_insert_stable_upto(forwarded, metered, vault, p, x, n - 1);
        assert(ins.take(n + 1).drop_last() =~= ins.take(n));
        assert(ins.take(n + 1).last() == forwarded[n - 1]);
        assert(forwarded.take(n).drop_last() =~= forwarded.take(n - 1));
        assert(forwarded.take(n).last() == forwarded[n - 1]);
    }
}

/// The scan is stable: inserting anywhere in the forwarded list an account
/// that is not a sibling (the metered account itself, another program's
/// account, something shorter than a token account, someone else's token
/// account), or a repeat of a sibling already scanned before that point,
/// leaves the snapshotted addresses and their order unchanged.
pub proof fn lemma_scope_stable_under_insertion(
    forwarded: Seq<AccountView>,
    metered: AccountView,
    vault: Key,
    p: int,
    x: AccountView,
)
    requires
        0 <= p <= forwarded.len(),
        !is_sibling(x, metered, vault) || sibling_keys(forwarded.take(p), metered, vault).contains(x.key),
    ensures
        sibling_keys(forwarded.insert(p, x), metered, vault) == sibling_keys(forwarded, metered, vault),
{
    lemma_insert_stable_upto(forwarded, metered, vault, p, x, forwarded.len() as int);
    assert(forwarded.insert(p, x).take(forwarded.len() + 1int) =~= forwarded.insert(p, x));
    assert(forwarded.take(forwarded.len() as int) =~= forwarded);
}

/// Every token account of the vault among the forwarded accounts is
/// snapshotted, whatever its balance: stated from the accounts, any account
/// whose address differs from the metered account's, that the metered
/// account's program owns, that holds at least a token account's 165 bytes
/// and whose owner field is the vault gets a snapshot.
pub proof fn lemma_scan_picks_every_vault_holding(forwarded: Seq<AccountView>, metered: AccountView, vault: Key)
    ensures
        forall|i: int|
            0 <= i < forwarded.len() && (#[trigger] forwarded[i]).key != metered.key
                && forwarded[i].owner == metered.owner && forwarded[i].data@.len() >= 165
                && forwarded[i].data@.subrange(32, 64) == vault@ ==> sibling_keys(
                forwarded,
                metered,
                vault,
            ).contains(forwarded[i].key),
{
    lemma_siblings_complete(forwarded, metered, vault);
    lemma_sibling_keys_at_positions(forwarded, metered, vault);
    let keys = sibling_keys(forwarded, metered, vault);
    let pos = sibling_positions(forwarded, metered, vault);
    assert forall|i: int|
        0 <= i < forwarded.len() && (#[trigger] forwarded[i]).key != metered.key
            && forwarded[i].owner == metered.owner && forwarded[i].data@.len() >= 165
            && forwarded[i].data@.subrange(32, 64) == vault@ implies keys.contains(forwarded[i].key) by {
        assert(is_sibling(forwarded[i], metered, vault));
        let j = choose|j: int| 0 <= j < pos.len() && forwarded[pos[j]].key == forwarded[i].key;
        assert(keys[j] == forwarded[i].key);
    }
}

/// Only token accounts of the vault are snapshotted: each snapshotted
/// address belongs to a forwarded account that is not the metered account,
/// is owned by the metered account's program, holds at least 165 bytes and
/// records the vault as its owner.
pub proof fn lemma_scan_picks_only_vault_holdings(forwarded: Seq<AccountView>, metered: AccountView, vault: Key, j: int)
    requires
        0 <= j < sibling_keys(forwarded, metered, vault).len(),
    ensures
        exists|i: int|
            #![trigger forwarded[i]]
            0 <= i < forwarded.len() && sibling_keys(forwarded, metered, vault)[j] == forwarded[i].key
                && forwarded[i].key != metered.key && forwarded[i].owner == metered.owner
                && forwarded[i].data@.len() >= 165 && forwarded[i].data@.subrange(32, 64) == vault@,
{
    lemma_siblings_sound(forwarded, metered, vault);
    lemma_sibling_keys_at_positions(forwarded, metered, vault);
    lemma_sibling_positions_ordered(forwarded, metered, vault);
    let i = sibling_positions(forwarded, metered, vault)[j];
    assert(is_sibling(forwarded[i], metered, vault));
}

/// ## Snapshot every other vault holding the call can reach
///
/// A cap on one account says nothing about the vault's other holdings. A call
/// can only touch accounts passed to it, so scanning the forwarded list is
/// complete. The token program is learned from the metered account's own
/// program owner rather than hardcoded.
pub fn scope_siblings(forwarded: &Vec<AccountView>, metered: &AccountView, vault: &Key) -> (out: Vec<Snapshot>)
    ensures
        out@.len() == sibling_positions(forwarded@, *metered, *vault).len(),
        forall|j: int|
            0 <= j < out@.len() ==> snapshot_of(
                #[trigger] out@[j],
                forwarded@[sibling_positions(forwarded@, *metered, *vault)[j]],
            ),
        out@.len() == sibling_keys(forwarded@, *metered, *vault).len(),
        forall|j: int| 0 <= j < out@.len() ==> (#[trigger] out@[j]).account == sibling_keys(forwarded@, *metered, *vault)[j],
        forall|i: int|
            0 <= i < forwarded@.len() && (#[trigger] forwarded@[i]).key != metered.key
                && forwarded@[i].owner == metered.owner && forwarded@[i].data@.len() >= 165
                && forwarded@[i].data@.subrange(32, 64) == vault@ ==> exists|j: int|
                0 <= j < out@.len() && out@[j].account == forwarded@[i].key,
{
    proof {
        lemma_sibling_keys_at_positions(forwarded@, *metered, *vault);
        lemma_scan_picks_every_vault_holding(forwarded@, *metered, *vault);
    }
    assert(forwarded@.subrange(0, forwarded@.len() as int) =~= forwarded@);
    let out = scope_siblings_from(forwarded, 0, metered, vault);
    proof {
        let keys = sibling_keys(forwarded@, *metered, *vault);
        assert forall|i: int|
            0 <= i < forwarded@.len() && (#[trigger] forwarded@[i]).key != metered.key
                && forwarded@[i].owner == metered.owner && forwarded@[i].data@.len() >= 165
                && forwarded@[i].data@.subrange(32, 64) == vault@ implies exists|j: int|
                0 <= j < out@.len() && out@[j].account == forwarded@[i].key by {
            assert(keys.contains(forwarded@[i].key));
            let j = choose|j: int| 0 <= j < keys.len() && keys[j] == forwarded@[i].key;
            assert(out@[j].account == keys[j]);
        }
    }
    out
}

/// `scope_siblings` over the accounts of `list` from position `start` on.
pub(crate) fn scope_siblings_from(list: &Vec<AccountView>, start: usize, metered: &AccountView, vault: &Key) -> (out: Vec<Snapshot>)
    requires
        start <= list@.len(),
    ensures
        out@.len() == sibling_positions(list@.subrange(start as int, list@.len() as int), *metered, *vault).len(),
        forall|j: int|
            0 <= j < out@.len() ==> snapshot_of(
                #[trigger] out@[j],
                list@.subrange(start as int, list@.len() as int)[sibling_positions(list@.subrange(start as int, list@.len() as int), *metered, *vault)[j]],
            ),
{
    let ghost forwarded_seq = list@.subrange(start as int, list@.len() as int);
    let n: usize = list.len() - start;
    let token_program = metered.owner;
    let mut out: Vec<Snapshot> = Vec::new();
    let mut i: usize = 0;
    while i < n
        invariant
            0 <= i <= n,
            start <= list@.len() <= usize::MAX,
            n == list@.len() - start,
            forwarded_seq == list@.subrange(start as int, list@.len() as int),
            forwarded_seq.len() == n,
            token_program == metered.owner,
            out@.len() == sibling_positions(forwarded_seq.subrange(0, i as int), *metered, *vault).len(),
            forall|j: int|
                0 <= j < out@.len() ==> snapshot_of(
                    #[trigger] out@[j],
                    forwarded_seq[sibling_positions(forwarded_seq.subrange(0, i as int), *metered, *vault)[j]],
                ),
        decreases n - i,
    {
        let ghost pre = forwarded_seq.subrange(0, i as int);
        let ghost next = forwarded_seq.subrange(0, i + 1);
        let ghost prev = sibling_positions(pre, *metered, *vault);
        proof {
            assert(next.drop_last() =~= pre);
            lemma_sibling_positions_ordered(pre, *metered, *vault);
            assert forall|j: int| 0 <= j < prev.len() implies next[prev[j]] == forwarded_seq[prev[j]] && pre[prev[j]] == forwarded_seq[prev[j]] by {
            }
        }
        let account = &list[start + i];
        assert(*account == forwarded_seq[i as int]);
        let mut skip = key_eq(&account.key, &metered.key);
        if !skip {
            // a duplicate entry in the account list
            let mut k: usize = 0;
            while k < out.len()
                invariant
                    0 <= k <= out@.len(),
                    !skip ==> forall|j: int| 0 <= j < k ==> out@[j].account != account.key,
                    skip ==> exists|j: int| 0 <= j < out@.len() && out@[j].account == account.key,
                decreases out@.len() - k,
            {
                if key_eq(&out[k].account, &account.key) {
                    skip = true;
                }
                k = k + 1;
            }
        }
        if !skip && !key_eq(&account.owner, &token_program) {
            skip = true;  // not a token account
        }
        if !skip && account.data.len() < TOKEN_ACCOUNT_LEN {
            skip = true;  // a mint, or something else entirely
        }
        if !skip {
            match token_owner(account) {
                Ok(o) => {
                    if !key_eq(&o, vault) {
                        skip = true;  // someone else's token account
                    }
                },
                Err(_) => {
                    skip = true;
                },
            }
        }
        proof {
            let dup = exists|j: int| 0 <= j < prev.len() && #[trigger] pre[prev[j]].key == next[i as int].key;
            assert(next[i as int] == *account);
            if dup {
                let j = choose|j: int| 0 <= j < prev.len() && #[trigger] pre[prev[j]].key == next[i as int].key;
                assert(out@[j].account == account.key);
            }
            assert(dup == exists|j: int| 0 <= j < prev.len() && #[trigger] next[prev[j]].key == next[i as int].key) by {
                if exists|j: int| 0 <= j < prev.len() && #[trigger] next[prev[j]].key == next[i as int].key {
                    let j = choose|j: int| 0 <= j < prev.len() && #[trigger] next[prev[j]].key == next[i as int].key;
                    assert(pre[prev[j]].key == next[i as int].key);
                }
            }
            if !skip {
                assert(forall|j: int| 0 <= j < out@.len() ==> out@[j].account != account.key);
                assert(!dup) by {
                    if dup {
                        let j = choose|j: int| 0 <= j < prev.len() && #[trigger] pre[prev[j]].key == next[i as int].key;
                        assert(out@[j].account == account.key);
                    }
                }
            }
        }
        if !skip {
            match Snapshot::take(account) {
                Ok(s) => {
                    out.push(s);
                },
                Err(_) => {},
            }
        }
        i = i + 1;
    }
    assert(forwarded_seq.subrange(0, n as int) =~= forwarded_seq);
    out
}

} // verus!
