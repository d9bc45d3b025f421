//! ## Errors
//!
//! Distinct codes per failure mode, so a rejection says what stopped it and a
//! test cannot pass for the wrong reason.

use vstd::prelude::*;

verus! {

/// The first code of this program's own errors. Codes below it belong to the
/// framework (account constraints and the like).
pub const ERROR_CODE_OFFSET: u32 = 6000;

/// One variant per failure mode, in code order.
#[derive(Debug, Clone, Copy, PartialEq, Eq, Structural)]
pub enum AgentWalletError {
    VaultPaused,
    DelegationRevoked,
    DelegationExpired,
    ZeroAmount,
    ExceedsPerTxLimit,
    ExceedsTotalLimit,
    ExceedsWindowLimit,
    DestinationNotAllowed,
    ProgramNotAllowed,
    SelfInvokeForbidden,
    TargetNotExecutable,
    MathOverflow,
    AuthorityAltered,
    UnmeteredHoldingFell,
    VaultLamportsFell,
    NotVaultTokenAccount,
    MintMismatch,
    TooManyEntries,
    InvalidWindow,
    InvalidExpiry,
}

/// Position of a variant in declaration order.
pub open spec fn error_index(e: AgentWalletError) -> nat {
    match e {
        AgentWalletError::VaultPaused => 0,
        AgentWalletError::DelegationRevoked => 1,
        AgentWalletError::DelegationExpired => 2,
        AgentWalletError::ZeroAmount => 3,
        AgentWalletError::ExceedsPerTxLimit => 4,
        AgentWalletError::ExceedsTotalLimit => 5,
        AgentWalletError::ExceedsWindowLimit => 6,
        AgentWalletError::DestinationNotAllowed => 7,
        AgentWalletError::ProgramNotAllowed => 8,
        AgentWalletError::SelfInvokeForbidden => 9,
        AgentWalletError::TargetNotExecutable => 10,
        AgentWalletError::MathOverflow => 11,
        AgentWalletError::AuthorityAltered => 12,
        AgentWalletError::UnmeteredHoldingFell => 13,
        AgentWalletError::VaultLamportsFell => 14,
        AgentWalletError::NotVaultTokenAccount => 15,
        AgentWalletError::MintMismatch => 16,
        AgentWalletError::TooManyEntries => 17,
        AgentWalletError::InvalidWindow => 18,
        AgentWalletError::InvalidExpiry => 19,
    }
}

impl AgentWalletError {
    /// The numeric code a client sees for this error: the offset plus the
    /// variant's position in declaration order.
    pub fn code(&self) -> (c: u32)
        ensures
            c == ERROR_CODE_OFFSET + error_index(*self),
    {
        let index: u32 = match self {
            AgentWalletError::VaultPaused => 0,
            AgentWalletError::DelegationRevoked => 1,
            AgentWalletError::DelegationExpired => 2,
            AgentWalletError::ZeroAmount => 3,
            AgentWalletError::ExceedsPerTxLimit => 4,
            AgentWalletError::ExceedsTotalLimit => 5,
            AgentWalletError::ExceedsWindowLimit => 6,
            AgentWalletError::DestinationNotAllowed => 7,
            AgentWalletError::ProgramNotAllowed => 8,
            AgentWalletError::SelfInvokeForbidden => 9,
            AgentWalletError::TargetNotExecutable => 10,
            AgentWalletError::MathOverflow => 11,
            AgentWalletError::AuthorityAltered => 12,
            AgentWalletError::UnmeteredHoldingFell => 13,
            AgentWalletError::VaultLamportsFell => 14,
            AgentWalletError::NotVaultTokenAccount => 15,
            AgentWalletError::MintMismatch => 16,
            AgentWalletError::TooManyEntries => 17,
            AgentWalletError::InvalidWindow => 18,
            AgentWalletError::InvalidExpiry => 19,
        };
        ERROR_CODE_OFFSET + index
    }
}

/// A refused account: the framework's own account constraints (an address
/// that is not the one its seeds derive, a stored key that does not match the
/// account passed), or one of this program's errors attached to a constraint.
#[derive(Debug, Clone, Copy, PartialEq, Eq, Structural)]
pub enum ConstraintError {
    HasOne,
    Seeds,
    Custom(AgentWalletError),
}

/// The framework's code for a violated has-one constraint.
pub const CONSTRAINT_HAS_ONE: u32 = 2001;

/// The framework's code for a violated seeds constraint.
pub const CONSTRAINT_SEEDS: u32 = 2006;

impl ConstraintError {
    /// The numeric code a client sees for this refusal.
    pub fn code(&self) -> (c: u32)
        ensures
            c == match *self {
                ConstraintError::HasOne => CONSTRAINT_HAS_ONE,
                ConstraintError::Seeds => CONSTRAINT_SEEDS,
                ConstraintError::Custom(e) => (ERROR_CODE_OFFSET + error_index(e)) as u32,
            },
    {
        match self {
            ConstraintError::HasOne => CONSTRAINT_HAS_ONE,
            ConstraintError::Seeds => CONSTRAINT_SEEDS,
            ConstraintError::Custom(e) => e.code(),
        }
    }
}

/// Two distinct errors never share a code, so a client can always tell which
/// check refused it.
pub proof fn lemma_codes_distinct(a: AgentWalletError, b: AgentWalletError)
    ensures
        a != b ==> error_index(a) != error_index(b),
{
}

} // verus!
