//! Quadratic funding rounds.
//!
//! In a round, many donors give to many projects, and a pool that sponsors have
//! filled is shared out among the projects. A project's share does not follow
//! what it raised but its score, the square of the sum of the square roots of
//! what each of its donors gave. So support from many counts for more than the
//! same amount from a few.
//!
//! A round goes through these instructions:
//!
//! - [`create_round`] starts it;
//! - [`register_project`] enters a project, before the deadline;
//! - [`donate`](donate()) gives to a project, before the deadline;
//! - [`fund_matching_pool`] adds to the pool, until the round is finalized;
//! - [`finalize_round`] scores the projects, after the deadline;
//! - [`claim_payout`] pays a project what it was given and its share.
//!
//! Each instruction is a function on the accounts that it is handed, as plain
//! values, and on the time. It either returns why it is refused, and changes
//! nothing, or makes its changes. What the accounts of a round mean together is
//! stated and proved in [`books`], [`solvency`], [`lifecycle`] and [`history`].
#![allow(unused_imports)]

pub mod accounts;
pub mod address;
pub mod books;
pub mod claim;
pub mod create;
pub mod donate;
pub mod error;
pub mod finalize;
pub mod fund;
pub mod history;
pub mod key;
pub mod lifecycle;
pub mod register;
pub mod solvency;
pub mod sqrt;
pub mod state;
pub mod sums;

pub use accounts::{
    ClaimPayout, CreateRound, Donate, FinalizeRound, FundMatchingPool, ProjectAccount,
    RegisterProject, Transfer,
};
pub use address::{contribution_pda, id, project_pda, project_pdas, round_pda};
pub use claim::{claim_amount, claim_payout, match_amount};
pub use create::create_round;
pub use donate::{donate, donate_transfer};
pub use error::QfError;
pub use finalize::{
    check_round, finalize_at_addresses, finalize_round, try_finalize_round, FinalizeError,
};
pub use fund::{fund_matching_pool, fund_transfer};
pub use key::Pubkey;
pub use register::register_project;
pub use sqrt::isqrt;
pub use state::{Contribution, Project, Round, MAX_NAME_LEN, MAX_PROJECTS};
