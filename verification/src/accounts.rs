//! The accounts that each instruction is handed.
//!
//! Each struct holds, as plain values, what its instruction reads and writes:
//! the addresses of the signers and of the accounts, what the accounts hold,
//! and, where an account is made by the instruction, the bump seed of its
//! address.
use vstd::prelude::*;
use crate::key::Pubkey;
use crate::state::{Contribution, Project, Round};

verus! {

/// The accounts of `create_round`.
#[derive(Debug)]
pub struct CreateRound {
    /// The signer, who becomes the creator of the round.
    pub creator: Pubkey,
    /// The account to fill.
    pub round: Round,
    /// The bump seed of the address of the round.
    pub bump: u8,
}

/// The accounts of `register_project`.
#[derive(Debug)]
pub struct RegisterProject {
    /// The signer, who becomes the owner of the project.
    pub owner: Pubkey,
    /// The address of the round.
    pub round_key: Pubkey,
    pub round: Round,
    /// The account to fill.
    pub project: Project,
    /// The bump seed of the address of the project.
    pub bump: u8,
}

/// The accounts of `fund_matching_pool`.
#[derive(Debug)]
pub struct FundMatchingPool {
    /// The signer, who pays.
    pub sponsor: Pubkey,
    /// The address of the round.
    pub round_key: Pubkey,
    pub round: Round,
}

/// The accounts of `donate`.
#[derive(Debug)]
pub struct Donate {
    /// The signer, who pays.
    pub donor: Pubkey,
    /// The address of the round.
    pub round_key: Pubkey,
    pub round: Round,
    /// The address of the project.
    pub project_key: Pubkey,
    pub project: Project,
    /// What the donor has given to the project so far. A donor who has not
    /// given anything yet has a contribution that was never written: no
    /// amount, and the zero address for the donor.
    pub contribution: Contribution,
    /// The bump seed of the address of the contribution.
    pub bump: u8,
}

/// An account that is handed to `finalize_round` as that of a project.
#[derive(Debug)]
pub struct ProjectAccount {
    /// The address of the account.
    pub key: Pubkey,
    /// What the account holds, or `None` where it does not hold a project.
    pub project: Option<Project>,
}

/// The accounts of `finalize_round`.
#[derive(Debug)]
pub struct FinalizeRound {
    /// The address of the round.
    pub round_key: Pubkey,
    pub round: Round,
    /// One account for each registered project, in order of registration.
    pub projects: Vec<ProjectAccount>,
}

/// The accounts of `claim_payout`.
#[derive(Debug)]
pub struct ClaimPayout {
    /// The signer, who is paid.
    pub owner: Pubkey,
    /// What the signer has.
    pub owner_lamports: u64,
    /// The address of the round.
    pub round_key: Pubkey,
    pub round: Round,
    /// What the account of the round has.
    pub round_lamports: u64,
    pub project: Project,
}

/// Lamports to be moved from one account to another.
#[derive(Clone, Copy, Debug)]
pub struct Transfer {
    pub from: Pubkey,
    pub to: Pubkey,
    pub lamports: u64,
}

} // verus!
