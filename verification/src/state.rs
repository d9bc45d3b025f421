//! ## State
//!
//! Two accounts. The vault custodies funds; the delegation carries one agent's
//! policy and its spend counters.
//!
//! Counters live on the delegation rather than the vault so two agents get
//! independent budgets: neither can starve the other, and revoking one leaves
//! the other untouched.

use vstd::prelude::*;

use crate::errors::AgentWalletError;
use crate::keys::{Key, keys_contain};

verus! {

/// Most entries either allowlist may hold.
pub const MAX_ALLOWLIST: usize = 8;

// ## Vault

pub struct Vault {
    /// The only key that may create, update or revoke delegations.
    pub owner: Key,
    /// Vault-wide stop. Blocks every agent at once.
    pub paused: bool,
    pub bump: u8,
}

/// The bytes of `b"vault"`.
pub open spec fn vault_seed_bytes() -> Seq<u8> {
    seq![118u8, 97u8, 117u8, 108u8, 116u8]
}

/// The bytes of `b"delegation"`.
pub open spec fn delegation_seed_bytes() -> Seq<u8> {
    seq![100u8, 101u8, 108u8, 101u8, 103u8, 97u8, 116u8, 105u8, 111u8, 110u8]
}

impl Vault {
    /// First seed of the vault address: `b"vault"`.
    pub fn seed() -> (s: Vec<u8>)
        ensures
            s@ == vault_seed_bytes(),
    {
        let s: Vec<u8> = vec![118u8, 97u8, 117u8, 108u8, 116u8];
        assert(s@ =~= vault_seed_bytes());
        s
    }
}

// ## Delegation

pub struct Delegation {
    pub vault: Key,
    /// The agent's session key. Never the owner's key.
    pub agent: Key,
    /// One mint per delegation: this keeps the metering sound.
    pub mint: Key,
    pub per_tx_limit: u64,
    pub total_limit: u64,
    pub total_spent: u64,
    /// Seconds. Zero disables the rate limit entirely.
    pub window_duration: i64,
    pub window_limit: u64,
    pub window_spent: u64,
    pub window_started_at: i64,
    pub expires_at: i64,
    pub revoked: bool,
    /// Token account OWNERS the agent may send to. Empty means any.
    pub allowed_destinations: Vec<Key>,
    /// Programs `agent_invoke` may call. Empty means none: invoke is opt-in.
    pub allowed_programs: Vec<Key>,
    pub bump: u8,
}

/// Why a delegation is unusable at time `now`, if it is.
pub open spec fn active_error(d: Delegation, now: i64) -> Option<AgentWalletError> {
    if d.revoked {
        Some(AgentWalletError::DelegationRevoked)
    } else if now >= d.expires_at {
        Some(AgentWalletError::DelegationExpired)
    } else {
        None
    }
}

/// When the current window closes (unbounded; may lie outside `i64`).
pub open spec fn window_end(d: Delegation) -> int {
    d.window_started_at + d.window_duration
}

pub open spec fn window_end_fits(d: Delegation) -> bool {
    i64::MIN <= window_end(d) <= i64::MAX
}

/// The rate limit is on and its window has closed by `now`: the counter
/// starts over.
pub open spec fn window_rolls(d: Delegation, now: i64) -> bool {
    d.window_duration > 0 && window_end_fits(d) && now >= window_end(d)
}

/// What the window counter holds once a rollover (if due) has happened.
pub open spec fn window_base(d: Delegation, now: i64) -> int {
    if window_rolls(d, now) {
        0
    } else {
        d.window_spent as int
    }
}

/// The first rule a spend of `amount` at `now` breaks, in the order the
/// policy checks them; `None` when the spend is within policy.
pub open spec fn spend_error(d: Delegation, amount: u64, now: i64) -> Option<AgentWalletError> {
    if active_error(d, now) is Some {
        active_error(d, now)
    } else if amount == 0 {
        Some(AgentWalletError::ZeroAmount)
    } else if amount > d.per_tx_limit {
        Some(AgentWalletError::ExceedsPerTxLimit)
    } else if d.total_spent + amount > u64::MAX {
        Some(AgentWalletError::MathOverflow)
    } else if d.total_spent + amount > d.total_limit {
        Some(AgentWalletError::ExceedsTotalLimit)
    } else if d.window_duration > 0 {
        if !window_end_fits(d) {
            Some(AgentWalletError::MathOverflow)
        } else if window_base(d, now) + amount > u64::MAX {
            Some(AgentWalletError::MathOverflow)
        } else if window_base(d, now) + amount > d.window_limit {
            Some(AgentWalletError::ExceedsWindowLimit)
        } else {
            None
        }
    } else {
        None
    }
}

/// The delegation after an accepted spend: the lifetime counter grows by the
/// amount, and so does the window counter (after any rollover) when the rate
/// limit is on.
pub open spec fn recorded(d: Delegation, amount: u64, now: i64) -> Delegation {
    if d.window_duration > 0 {
        Delegation {
            total_spent: (d.total_spent + amount) as u64,
            window_spent: (window_base(d, now) + amount) as u64,
            window_started_at: if window_rolls(d, now) { now } else { d.window_started_at },
            ..d
        }
    } else {
        Delegation { total_spent: (d.total_spent + amount) as u64, ..d }
    }
}

/// The delegation with its window restarted at `now`.
pub open spec fn rolled(d: Delegation, now: i64) -> Delegation {
    Delegation { window_started_at: now, window_spent: 0, ..d }
}

/// The delegation after `check_and_record` at `now`, accepted or not. A spend
/// refused by the window limit still leaves a due rollover in place; every
/// other refusal leaves the delegation as it was.
pub open spec fn after_spend(d: Delegation, amount: u64, now: i64) -> Delegation {
    match spend_error(d, amount, now) {
        None => recorded(d, amount, now),
        Some(e) => if e == AgentWalletError::ExceedsWindowLimit && window_rolls(d, now) {
            rolled(d, now)
        } else {
            d
        },
    }
}


// ## Laws of the spend policy

/// An accepted spend is positive, within the per-transaction cap, and leaves
/// the lifetime counter within the lifetime cap and (when the rate limit is
/// on) the window counter within the window cap.
pub proof fn lemma_accepted_spend_within_limits(d: Delegation, amount: u64, now: i64)
    requires
        spend_error(d, amount, now) is None,
    ensures
        0 < amount <= d.per_tx_limit,
        after_spend(d, amount, now).total_spent == d.total_spent + amount,
        after_spend(d, amount, now).total_spent <= d.total_limit,
        d.window_duration > 0 ==> after_spend(d, amount, now).window_spent <= d.window_limit,
        active_error(d, now) is None,
{
}

/// A refused spend charges nothing: the lifetime counter, the limits, the
/// expiry, the revocation flag and both allowlists are as they were. Only a
/// window rollover that was due may have happened.
pub proof fn lemma_refused_spend_charges_nothing(d: Delegation, amount: u64, now: i64)
    requires
        spend_error(d, amount, now) is Some,
    ensures
        after_spend(d, amount, now).total_spent == d.total_spent,
        after_spend(d, amount, now).per_tx_limit == d.per_tx_limit,
        after_spend(d, amount, now).total_limit == d.total_limit,
        after_spend(d, amount, now).window_limit == d.window_limit,
        after_spend(d, amount, now).window_duration == d.window_duration,
        after_spend(d, amount, now).expires_at == d.expires_at,
        after_spend(d, amount, now).revoked == d.revoked,
        after_spend(d, amount, now).allowed_destinations == d.allowed_destinations,
        after_spend(d, amount, now).allowed_programs == d.allowed_programs,
        after_spend(d, amount, now) == d || after_spend(d, amount, now) == rolled(d, now),
{
}

/// Revocation and expiry are absolute: a revoked delegation, or one at or past
/// its expiry, refuses every spend with that reason, whatever the amount.
pub proof fn lemma_inactive_refuses_every_spend(d: Delegation, amount: u64, now: i64)
    requires
        d.revoked || now >= d.expires_at,
    ensures
        spend_error(d, amount, now) == Some(if d.revoked {
            AgentWalletError::DelegationRevoked
        } else {
            AgentWalletError::DelegationExpired
        }),
        after_spend(d, amount, now) == d,
{
}

/// Once the window has closed, an accepted spend restarts it at `now` and the
/// window counter holds that spend alone; the lifetime counter keeps
/// accumulating.
pub proof fn lemma_window_rolls_over(d: Delegation, amount: u64, now: i64)
    requires
        window_rolls(d, now),
        spend_error(d, amount, now) is None,
    ensures
        after_spend(d, amount, now).window_spent == amount,
        after_spend(d, amount, now).window_started_at == now,
        after_spend(d, amount, now).total_spent == d.total_spent + amount,
{
}

/// The delegation after a sequence of spend attempts `(amount, now)`.
pub open spec fn run_spends(d: Delegation, spends: Seq<(u64, i64)>) -> Delegation
    decreases spends.len(),
{
    if spends.len() == 0 {
        d
    } else {
        after_spend(run_spends(d, spends.drop_last()), spends.last().0, spends.last().1)
    }
}

/// The sum of the amounts the policy accepted along a sequence of attempts.
pub open spec fn accepted_sum(d: Delegation, spends: Seq<(u64, i64)>) -> int
    decreases spends.len(),
{
    if spends.len() == 0 {
        0
    } else {
        accepted_sum(d, spends.drop_last()) + if spend_error(
            run_spends(d, spends.drop_last()),
            spends.last().0,
            spends.last().1,
        ) is None {
            spends.last().0 as int
        } else {
            0
        }
    }
}

/// A spend of `amount` at `now` that every limit admits, stated from the
/// fields: the delegation is live, the amount is positive and within the
/// per-transaction cap, the lifetime counter stays within the lifetime cap,
/// and, when the rate limit is on, the window counter (started over if the
/// window has closed by `now`) plus the amount stays within the window cap.
pub open spec fn within_every_limit(d: Delegation, amount: u64, now: i64) -> bool {
    &&& !d.revoked
    &&& now < d.expires_at
    &&& 0 < amount <= d.per_tx_limit
    &&& d.total_spent + amount <= d.total_limit
    &&& d.window_duration > 0 ==> {
        &&& d.window_started_at + d.window_duration <= i64::MAX
        &&& (if now >= d.window_started_at + d.window_duration {
            0
        } else {
            d.window_spent as int
        }) + amount <= d.window_limit
    }
}

/// The policy admits exactly the spends within every limit: a spend that
/// stays within the per-transaction, lifetime and window caps (the window
/// cap reached exactly included) on a live delegation is accepted, and one
/// that passes any of them is refused. An accepted spend adds the amount to
/// the lifetime counter and to the window counter, which starts over at
/// `now` when the window has closed.
pub proof fn lemma_spend_accepted_iff_within_every_limit(d: Delegation, amount: u64, now: i64)
    ensures
        spend_error(d, amount, now) is None <==> within_every_limit(d, amount, now),
        within_every_limit(d, amount, now) ==> {
            &&& after_spend(d, amount, now).total_spent == d.total_spent + amount
            &&& d.window_duration > 0 && now >= d.window_started_at + d.window_duration ==> {
                &&& after_spend(d, amount, now).window_spent == amount
                &&& after_spend(d, amount, now).window_started_at == now
            }
            &&& d.window_duration > 0 && now < d.window_started_at + d.window_duration ==> {
                &&& after_spend(d, amount, now).window_spent == d.window_spent + amount
                &&& after_spend(d, amount, now).window_started_at == d.window_started_at
            }
            &&& d.window_duration <= 0 ==> after_spend(d, amount, now).window_spent
                == d.window_spent
        },
{
}

/// The lifetime cap bounds the damage of any sequence of spends: whatever the
/// agent attempts, in whatever order and at whatever times, the lifetime
/// counter grows by exactly what was accepted, the limits do not move, and the
/// counter never passes the lifetime cap.
pub proof fn lemma_lifetime_cap_bounds_every_run(d: Delegation, spends: Seq<(u64, i64)>)
    requires
        d.total_spent <= d.total_limit,
    ensures
        run_spends(d, spends).total_spent == d.total_spent + accepted_sum(d, spends),
        run_spends(d, spends).total_limit == d.total_limit,
        run_spends(d, spends).per_tx_limit == d.per_tx_limit,
        run_spends(d, spends).window_duration == d.window_duration,
        run_spends(d, spends).window_limit == d.window_limit,
        d.total_spent + accepted_sum(d, spends) <= d.total_limit,
    decreases spends.len(),
{
    if spends.len() > 0 {
        lemma_lifetime_cap_bounds_every_run(d, spends.drop_last());
    }
}

/// Within one window the rate limit bounds the damage the same way: while
/// every attempt falls before the window closes, the window counter grows by
/// exactly what was accepted and never passes the window cap.
pub proof fn lemma_window_cap_bounds_every_run(d: Delegation, spends: Seq<(u64, i64)>)
    requires
        d.window_duration > 0,
        d.window_spent <= d.window_limit,
        forall|i: int| 0 <= i < spends.len() ==> spends[i].1 < window_end(d),
    ensures
        run_spends(d, spends).window_started_at == d.window_started_at,
        run_spends(d, spends).window_duration == d.window_duration,
        run_spends(d, spends).window_limit == d.window_limit,
        run_spends(d, spends).window_spent == d.window_spent + accepted_sum(d, spends),
        d.window_spent + accepted_sum(d, spends) <= d.window_limit,
    decreases spends.len(),
{
    if spends.len() > 0 {
        let prefix = spends.drop_last();
        assert forall|i: int| 0 <= i < prefix.len() implies prefix[i].1 < window_end(d) by {
            assert(prefix[i] == spends[i]);
        }
        lemma_window_cap_bounds_every_run(d, prefix);
        assert(spends.last() == spends[spends.len() - 1]);
    }
}

impl Delegation {
    /// First seed of a delegation address: `b"delegation"`.
    pub fn seed() -> (s: Vec<u8>)
        ensures
            s@ == delegation_seed_bytes(),
    {
        let s: Vec<u8> = vec![100u8, 101u8, 108u8, 101u8, 103u8, 97u8, 116u8, 105u8, 111u8, 110u8];
        assert(s@ =~= delegation_seed_bytes());
        s
    }

    /// Is this delegation usable at all? Separated from the spend accounting
    /// so `agent_invoke` can refuse a revoked delegation before running the
    /// call rather than unwinding it afterwards.
    pub fn check_active(&self, now: i64) -> (r: Result<(), AgentWalletError>)
        ensures
            r is Ok <==> active_error(*self, now) is None,
            r matches Err(e) ==> active_error(*self, now) == Some(e),
            r is Ok <==> !self.revoked && now < self.expires_at,
    {
        if self.revoked {
            return Err(AgentWalletError::DelegationRevoked);
        }
        if !(now < self.expires_at) {
            return Err(AgentWalletError::DelegationExpired);
        }
        Ok(())
    }

    /// The spend policy's verdict on `amount` at `now`, without recording
    /// anything: the same checks in the same order as `check_and_record`.
    pub fn check_spend(&self, amount: u64, now: i64) -> (r: Result<(), AgentWalletError>)
        ensures
            r is Ok <==> spend_error(*self, amount, now) is None,
            r matches Err(e) ==> spend_error(*self, amount, now) == Some(e),
            r is Ok <==> within_every_limit(*self, amount, now),
    {
        proof {
            lemma_spend_accepted_iff_within_every_limit(*self, amount, now);
        }
        self.check_active(now)?;
        if !(amount > 0) {
            return Err(AgentWalletError::ZeroAmount);
        }
        if !(amount <= self.per_tx_limit) {
            return Err(AgentWalletError::ExceedsPerTxLimit);
        }
        let new_total = match self.total_spent.checked_add(amount) {
            Some(t) => t,
            None => return Err(AgentWalletError::MathOverflow),
        };
        if !(new_total <= self.total_limit) {
            return Err(AgentWalletError::ExceedsTotalLimit);
        }
        if self.window_duration > 0 {
            let window_end = match self.window_started_at.checked_add(self.window_duration) {
                Some(e) => e,
                None => return Err(AgentWalletError::MathOverflow),
            };
            let base: u64 = if now >= window_end {
                0
            } else {
                self.window_spent
            };
            let new_window = match base.checked_add(amount) {
                Some(w) => w,
                None => return Err(AgentWalletError::MathOverflow),
            };
            if !(new_window <= self.window_limit) {
                return Err(AgentWalletError::ExceedsWindowLimit);
            }
        }
        Ok(())
    }

    /// ## Policy evaluation
    ///
    /// Ordered cheapest and most decisive first. Every counter uses checked
    /// arithmetic. Mutates the counters, so the caller must only reach here
    /// once the spend is real.
    ///
    /// The window is a tumbling one: it resets wholesale on expiry rather than
    /// tracking a true rolling sum.
    pub fn check_and_record(&mut self, amount: u64, now: i64) -> (r: Result<(), AgentWalletError>)
        ensures
            r is Ok <==> spend_error(*old(self), amount, now) is None,
            r matches Err(e) ==> spend_error(*old(self), amount, now) == Some(e),
            *final(self) == after_spend(*old(self), amount, now),
            r is Ok <==> within_every_limit(*old(self), amount, now),
            r is Ok ==> final(self).total_spent == old(self).total_spent + amount,
    {
        proof {
            lemma_spend_accepted_iff_within_every_limit(*self, amount, now);
        }
        self.check_active(now)?;
        if !(amount > 0) {
            return Err(AgentWalletError::ZeroAmount);
        }
        if !(amount <= self.per_tx_limit) {
            return Err(AgentWalletError::ExceedsPerTxLimit);
        }
        let new_total = match self.total_spent.checked_add(amount) {
            Some(t) => t,
            None => return Err(AgentWalletError::MathOverflow),
        };
        if !(new_total <= self.total_limit) {
            return Err(AgentWalletError::ExceedsTotalLimit);
        }
        if self.window_duration > 0 {
            let window_end = match self.window_started_at.checked_add(self.window_duration) {
                Some(e) => e,
                None => return Err(AgentWalletError::MathOverflow),
            };
            if now >= window_end {
                self.window_started_at = now;
                self.window_spent = 0;
            }
            let new_window = match self.window_spent.checked_add(amount) {
                Some(w) => w,
                None => return Err(AgentWalletError::MathOverflow),
            };
            if !(new_window <= self.window_limit) {
                return Err(AgentWalletError::ExceedsWindowLimit);
            }
            self.window_spent = new_window;
        }
        self.total_spent = new_total;
        Ok(())
    }

    /// A transfer may only go to a token account whose owner is on the
    /// destination allowlist; an empty allowlist admits any owner.
    pub fn check_destination(&self, destination_owner: &Key) -> (r: Result<(), AgentWalletError>)
        ensures
            r is Ok <==> (self.allowed_destinations@.len() == 0
                || self.allowed_destinations@.contains(*destination_owner)),
            r matches Err(e) ==> e == AgentWalletError::DestinationNotAllowed,
    {
        if self.allowed_destinations.len() == 0 {
            return Ok(());
        }
        if !keys_contain(&self.allowed_destinations, destination_owner) {
            return Err(AgentWalletError::DestinationNotAllowed);
        }
        Ok(())
    }

    /// Only allowlisted programs may be invoked; an empty allowlist admits
    /// none.
    pub fn check_program(&self, program: &Key) -> (r: Result<(), AgentWalletError>)
        ensures
            r is Ok <==> self.allowed_programs@.contains(*program),
            r matches Err(e) ==> e == AgentWalletError::ProgramNotAllowed,
    {
        if !keys_contain(&self.allowed_programs, program) {
            return Err(AgentWalletError::ProgramNotAllowed);
        }
        Ok(())
    }
}

// ## Policy payload

/// Passed to `create_delegation` / `update_delegation` as one struct so the
/// argument list stays readable and the client has a single shape to build.
pub struct PolicyArgs {
    pub per_tx_limit: u64,
    pub total_limit: u64,
    pub window_duration: i64,
    pub window_limit: u64,
    pub expires_at: i64,
    pub allowed_destinations: Vec<Key>,
    pub allowed_programs: Vec<Key>,
}

/// The first rule a policy breaks when issued at `now`, if any.
pub open spec fn policy_error(p: PolicyArgs, now: i64) -> Option<AgentWalletError> {
    if !(p.allowed_destinations@.len() <= MAX_ALLOWLIST && p.allowed_programs@.len()
        <= MAX_ALLOWLIST) {
        Some(AgentWalletError::TooManyEntries)
    } else if !(p.expires_at > now) {
        Some(AgentWalletError::InvalidExpiry)
    } else if (p.window_duration == 0) != (p.window_limit == 0) {
        Some(AgentWalletError::InvalidWindow)
    } else {
        None
    }
}

/// A policy is accepted exactly when both allowlists hold at most eight
/// entries, the expiry lies after `now`, and a window duration is given
/// exactly when a window limit is.
pub proof fn lemma_policy_accepted_iff_well_formed(p: PolicyArgs, now: i64)
    ensures
        policy_error(p, now) is None <==> {
            &&& p.allowed_destinations@.len() <= 8
            &&& p.allowed_programs@.len() <= 8
            &&& p.expires_at > now
            &&& (p.window_duration == 0 <==> p.window_limit == 0)
        },
{
}

impl PolicyArgs {
    /// Allowlists within their bound, an expiry in the future, and a window
    /// duration given exactly when a window limit is: a duration with no limit
    /// would silently allow everything.
    pub fn validate(&self, now: i64) -> (r: Result<(), AgentWalletError>)
        ensures
            r is Ok <==> policy_error(*self, now) is None,
            r matches Err(e) ==> policy_error(*self, now) == Some(e),
            r is Ok <==> {
                &&& self.allowed_destinations@.len() <= 8
                &&& self.allowed_programs@.len() <= 8
                &&& self.expires_at > now
                &&& (self.window_duration == 0 <==> self.window_limit == 0)
            },
    {
        proof {
            lemma_policy_accepted_iff_well_formed(*self, now);
        }
        if !(self.allowed_destinations.len() <= MAX_ALLOWLIST && self.allowed_programs.len()
            <= MAX_ALLOWLIST) {
            return Err(AgentWalletError::TooManyEntries);
        }
        if !(self.expires_at > now) {
            return Err(AgentWalletError::InvalidExpiry);
        }
        if (self.window_duration == 0) != (self.window_limit == 0) {
            return Err(AgentWalletError::InvalidWindow);
        }
        Ok(())
    }
}

} // verus!
