use solana_quadratic_funding::{
    check_round, claim_amount, claim_payout, create_round, donate, donate_transfer, finalize_at_addresses,
    finalize_round, fund_matching_pool, fund_transfer, match_amount, project_pda, register_project,
    try_finalize_round, ClaimPayout, Contribution, CreateRound, Donate, FinalizeError,
    FinalizeRound, FundMatchingPool, Project, ProjectAccount, Pubkey, QfError, RegisterProject,
    Round,
};

const ROUND: u8 = 100;
const DEADLINE: i64 = 1_000;

fn key(n: u8) -> Pubkey {
    Pubkey { bytes: [n; 32] }
}

fn open_round() -> Round {
    Round {
        creator: key(1),
        round_id: 1,
        deadline_unix: DEADLINE,
        project_owners: [key(0); 10],
        project_count: 0,
        matching_pool_total: 0,
        total_qf_score: 0,
        finalized: false,
        bump: 254,
    }
}

fn closed_round(pool: u64, total: u128) -> Round {
    Round {
        matching_pool_total: pool,
        total_qf_score: total,
        finalized: true,
        ..open_round()
    }
}

fn project(owner: u8) -> Project {
    Project {
        round: key(ROUND),
        owner: key(owner),
        name: "p".to_string(),
        total_donated: 0,
        sqrt_sum: 0,
        donor_count: 0,
        qf_score: 0,
        claimed: false,
        bump: 253,
    }
}

fn blank() -> Contribution {
    Contribution { donor: key(0), project: key(0), amount: 0, bump: 0 }
}

fn donation() -> Donate {
    Donate {
        donor: key(50),
        round_key: key(ROUND),
        round: open_round(),
        project_key: key(60),
        project: project(2),
        contribution: blank(),
        bump: 252,
    }
}

fn registration() -> RegisterProject {
    RegisterProject {
        owner: key(2),
        round_key: key(ROUND),
        round: open_round(),
        project: Project { name: String::new(), ..project(0) },
        bump: 251,
    }
}

fn claim(pool: u64, score: u128, total: u128, donated: u64) -> ClaimPayout {
    ClaimPayout {
        owner: key(2),
        owner_lamports: 5,
        round_key: key(ROUND),
        round: closed_round(pool, total),
        round_lamports: 10_000,
        project: Project { total_donated: donated, qf_score: score, ..project(2) },
    }
}

#[test]
fn round_is_created_empty() {
    let mut ctx = CreateRound {
        creator: key(9),
        round: Round { project_count: 3, finalized: true, ..open_round() },
        bump: 77,
    };
    assert_eq!(create_round(&mut ctx, 42, 501, 500), Ok(()));
    assert_eq!(ctx.round.creator, key(9));
    assert_eq!(ctx.round.round_id, 42);
    assert_eq!(ctx.round.deadline_unix, 501);
    assert_eq!(ctx.round.project_owners, [key(0); 10]);
    assert_eq!(ctx.round.project_count, 0);
    assert_eq!(ctx.round.matching_pool_total, 0);
    assert_eq!(ctx.round.total_qf_score, 0);
    assert!(!ctx.round.finalized);
    assert_eq!(ctx.round.bump, 77);
}

#[test]
fn round_needs_a_deadline_ahead() {
    let mut ctx = CreateRound { creator: key(9), round: open_round(), bump: 77 };
    assert_eq!(create_round(&mut ctx, 42, 500, 500), Err(QfError::DeadlinePassed));
    assert_eq!(create_round(&mut ctx, 42, -1, 500), Err(QfError::DeadlinePassed));
    assert_eq!(ctx.round.creator, key(1));
}

#[test]
fn project_is_registered_in_the_next_slot() {
    let mut ctx = registration();
    ctx.round.project_owners[0] = key(8);
    ctx.round.project_count = 1;
    assert_eq!(register_project(&mut ctx, "Garden".to_string(), 999), Ok(()));
    assert_eq!(ctx.project.round, key(ROUND));
    assert_eq!(ctx.project.owner, key(2));
    assert_eq!(ctx.project.name, "Garden");
    assert_eq!(ctx.project.total_donated, 0);
    assert_eq!(ctx.project.sqrt_sum, 0);
    assert_eq!(ctx.project.donor_count, 0);
    assert_eq!(ctx.project.qf_score, 0);
    assert!(!ctx.project.claimed);
    assert_eq!(ctx.project.bump, 251);
    assert_eq!(ctx.round.project_count, 2);
    assert_eq!(ctx.round.registered_owners(), vec![key(8), key(2)]);
}

#[test]
fn name_is_limited_to_fifty_bytes() {
    let mut ctx = registration();
    assert_eq!(register_project(&mut ctx, "x".repeat(51), 0), Err(QfError::NameTooLong));
    assert_eq!(register_project(&mut ctx, "é".repeat(26), 0), Err(QfError::NameTooLong));
    assert_eq!(ctx.round.project_count, 0);
    assert_eq!(register_project(&mut ctx, "é".repeat(25), 0), Ok(()));
    assert_eq!(register_project(&mut ctx, "x".repeat(50), 0), Ok(()));
}

#[test]
fn registration_closes_with_the_deadline() {
    let mut ctx = registration();
    assert_eq!(
        register_project(&mut ctx, "p".to_string(), DEADLINE),
        Err(QfError::DeadlinePassed)
    );
    assert_eq!(register_project(&mut ctx, "p".to_string(), DEADLINE - 1), Ok(()));
}

#[test]
fn registration_is_refused_once_finalized() {
    let mut ctx = registration();
    ctx.round.finalized = true;
    assert_eq!(register_project(&mut ctx, "p".to_string(), 0), Err(QfError::RoundFinalized));
    assert_eq!(register_project(&mut ctx, "x".repeat(51), 0), Err(QfError::NameTooLong));
}

#[test]
fn round_takes_ten_projects() {
    let mut ctx = registration();
    for n in 0..10u8 {
        ctx.owner = key(n + 20);
        assert_eq!(register_project(&mut ctx, "p".to_string(), 0), Ok(()));
    }
    ctx.owner = key(40);
    assert_eq!(
        register_project(&mut ctx, "p".to_string(), 0),
        Err(QfError::InvalidProjectCount)
    );
    assert_eq!(ctx.round.project_count, 10);
    let owners = ctx.round.registered_owners();
    assert_eq!(owners.len(), 10);
    for n in 0..10u8 {
        assert_eq!(owners[n as usize], key(n + 20));
    }
}

#[test]
fn pool_grows_by_what_is_added() {
    let mut ctx = FundMatchingPool { sponsor: key(70), round_key: key(ROUND), round: open_round() };
    let moved = fund_matching_pool(&mut ctx, 40).unwrap();
    assert_eq!(moved.from, key(70));
    assert_eq!(moved.to, key(ROUND));
    assert_eq!(moved.lamports, 40);
    assert_eq!(fund_transfer(&ctx, 2).unwrap().lamports, 2);
    assert!(fund_matching_pool(&mut ctx, 2).is_ok());
    assert_eq!(ctx.round.matching_pool_total, 42);
}

#[test]
fn pool_refuses_nothing_and_overflow() {
    let mut ctx = FundMatchingPool { sponsor: key(70), round_key: key(ROUND), round: open_round() };
    assert_eq!(fund_matching_pool(&mut ctx, 0).unwrap_err(), QfError::InvalidAmount);
    assert_eq!(fund_transfer(&ctx, 0).unwrap_err(), QfError::InvalidAmount);
    ctx.round.matching_pool_total = u64::MAX;
    assert!(fund_transfer(&ctx, 1).is_ok());
    assert_eq!(fund_matching_pool(&mut ctx, 1).unwrap_err(), QfError::MathOverflow);
    assert_eq!(ctx.round.matching_pool_total, u64::MAX);
}

#[test]
fn pool_is_closed_once_finalized() {
    let mut ctx = FundMatchingPool {
        sponsor: key(70),
        round_key: key(ROUND),
        round: closed_round(7, 1),
    };
    assert_eq!(fund_transfer(&ctx, 1).unwrap_err(), QfError::RoundFinalized);
    assert_eq!(fund_matching_pool(&mut ctx, 1).unwrap_err(), QfError::RoundFinalized);
    assert_eq!(ctx.round.matching_pool_total, 7);
}

#[test]
fn first_donation_counts_the_donor() {
    let mut ctx = donation();
    let moved = donate(&mut ctx, 10, 999).unwrap();
    assert_eq!(moved.from, key(50));
    assert_eq!(moved.to, key(ROUND));
    assert_eq!(moved.lamports, 10);
    assert_eq!(ctx.contribution.donor, key(50));
    assert_eq!(ctx.contribution.project, key(60));
    assert_eq!(ctx.contribution.amount, 10);
    assert_eq!(ctx.contribution.bump, 252);
    assert_eq!(ctx.project.total_donated, 10);
    assert_eq!(ctx.project.sqrt_sum, 3);
    assert_eq!(ctx.project.donor_count, 1);
}

#[test]
fn next_donation_replaces_the_root() {
    let mut ctx = donation();
    donate(&mut ctx, 10, 0).unwrap();
    donate(&mut ctx, 15, 0).unwrap();
    assert_eq!(ctx.contribution.amount, 25);
    assert_eq!(ctx.project.total_donated, 25);
    assert_eq!(ctx.project.sqrt_sum, 5);
    assert_eq!(ctx.project.donor_count, 1);
    ctx.donor = key(51);
    ctx.contribution = blank();
    donate(&mut ctx, 100, 0).unwrap();
    assert_eq!(ctx.project.total_donated, 125);
    assert_eq!(ctx.project.sqrt_sum, 15);
    assert_eq!(ctx.project.donor_count, 2);
}

#[test]
fn donation_refusals_come_in_order() {
    let mut ctx = donation();
    ctx.round.finalized = true;
    ctx.project.round = key(99);
    assert_eq!(donate(&mut ctx, 0, DEADLINE).unwrap_err(), QfError::InvalidProjectAccount);
    ctx.project.round = key(ROUND);
    assert_eq!(donate(&mut ctx, 0, DEADLINE).unwrap_err(), QfError::InvalidAmount);
    assert_eq!(donate(&mut ctx, 1, DEADLINE).unwrap_err(), QfError::RoundFinalized);
    ctx.round.finalized = false;
    assert_eq!(donate(&mut ctx, 1, DEADLINE).unwrap_err(), QfError::DeadlinePassed);
    assert_eq!(donate_transfer(&ctx, 1, DEADLINE).unwrap_err(), QfError::DeadlinePassed);
    assert_eq!(donate_transfer(&ctx, 1, DEADLINE - 1).unwrap().lamports, 1);
    assert_eq!(ctx.project.total_donated, 0);
    assert_eq!(ctx.contribution.amount, 0);
}

#[test]
fn donation_overflows_change_nothing() {
    let mut ctx = donation();
    ctx.contribution = Contribution { donor: key(50), amount: u64::MAX, ..blank() };
    assert!(donate_transfer(&ctx, 1, 0).is_ok());
    assert_eq!(donate(&mut ctx, 1, 0).unwrap_err(), QfError::MathOverflow);

    let mut ctx = donation();
    ctx.project.sqrt_sum = u128::MAX;
    assert_eq!(donate(&mut ctx, 1, 0).unwrap_err(), QfError::MathOverflow);
    assert_eq!(ctx.contribution.amount, 0);

    let mut ctx = donation();
    ctx.project.total_donated = u64::MAX;
    assert_eq!(donate(&mut ctx, 1, 0).unwrap_err(), QfError::MathOverflow);
    assert_eq!(ctx.project.sqrt_sum, 0);

    let mut ctx = donation();
    ctx.project.donor_count = u32::MAX;
    assert_eq!(donate(&mut ctx, 1, 0).unwrap_err(), QfError::MathOverflow);
    ctx.contribution = Contribution { donor: key(50), amount: 3, ..blank() };
    assert!(donate(&mut ctx, 1, 0).is_ok());
    assert_eq!(ctx.project.donor_count, u32::MAX);
}

fn two_projects() -> FinalizeRound {
    let mut round = open_round();
    round.project_owners[0] = key(2);
    round.project_owners[1] = key(3);
    round.project_count = 2;
    let account = |owner: u8, roots: u128| ProjectAccount {
        key: project_pda(&key(ROUND), &key(owner)).unwrap(),
        project: Some(Project { sqrt_sum: roots, ..project(owner) }),
    };
    FinalizeRound {
        round_key: key(ROUND),
        round,
        projects: vec![account(2, 3), account(3, 4)],
    }
}

#[test]
fn finalizing_scores_every_project() {
    let mut ctx = two_projects();
    assert_eq!(finalize_round(&mut ctx, DEADLINE + 1), Ok(()));
    assert!(ctx.round.finalized);
    assert_eq!(ctx.round.total_qf_score, 25);
    assert_eq!(ctx.projects[0].project.as_ref().unwrap().qf_score, 9);
    assert_eq!(ctx.projects[1].project.as_ref().unwrap().qf_score, 16);
    assert_eq!(ctx.projects[1].project.as_ref().unwrap().sqrt_sum, 4);
    assert_eq!(
        finalize_round(&mut ctx, DEADLINE + 1),
        Err(FinalizeError::Program(QfError::RoundFinalized))
    );
}

#[test]
fn finalizing_waits_for_the_deadline_to_pass() {
    let mut ctx = two_projects();
    assert_eq!(
        try_finalize_round(&mut ctx, DEADLINE),
        Some(Err(FinalizeError::Program(QfError::DeadlineNotReached)))
    );
    assert_eq!(try_finalize_round(&mut ctx, DEADLINE + 1), Some(Ok(())));
    assert_eq!(ctx.round.total_qf_score, 25);
}

#[test]
fn finalizing_needs_every_project_in_order() {
    let wrong = Err(FinalizeError::Program(QfError::InvalidProjectAccount));
    let mut ctx = two_projects();
    ctx.projects.pop();
    assert_eq!(finalize_round(&mut ctx, DEADLINE + 1), wrong);
    let mut ctx = two_projects();
    ctx.projects.swap(0, 1);
    assert_eq!(finalize_round(&mut ctx, DEADLINE + 1), wrong);
    assert!(!ctx.round.finalized);
    let mut ctx = two_projects();
    ctx.round_key = key(101);
    assert_eq!(finalize_round(&mut ctx, DEADLINE + 1), wrong);
    let mut ctx = two_projects();
    ctx.projects[1].key = ctx.projects[0].key;
    assert_eq!(finalize_round(&mut ctx, DEADLINE + 1), wrong);
    assert_eq!(ctx.projects[0].project.as_ref().unwrap().qf_score, 0);
}

#[test]
fn finalizing_reports_the_first_fault() {
    let mut ctx = two_projects();
    ctx.projects[0].project = None;
    ctx.projects[1].key = key(0);
    assert_eq!(
        finalize_round(&mut ctx, DEADLINE + 1),
        Err(FinalizeError::Unreadable(0))
    );
    let mut ctx = two_projects();
    ctx.projects[0].key = key(0);
    ctx.projects[1].project = None;
    assert_eq!(
        finalize_round(&mut ctx, DEADLINE + 1),
        Err(FinalizeError::Program(QfError::InvalidProjectAccount))
    );
    let mut ctx = two_projects();
    ctx.projects[1].project = None;
    assert_eq!(
        finalize_round(&mut ctx, DEADLINE + 1),
        Err(FinalizeError::Unreadable(1))
    );
}

#[test]
fn finalizing_overflows() {
    let overflow = Err(FinalizeError::Program(QfError::MathOverflow));
    let mut ctx = two_projects();
    ctx.projects[1].project.as_mut().unwrap().sqrt_sum = 1 << 64;
    assert_eq!(finalize_round(&mut ctx, DEADLINE + 1), overflow);
    let mut ctx = two_projects();
    ctx.projects[0].project.as_mut().unwrap().sqrt_sum = (1 << 64) - 1;
    ctx.projects[1].project.as_mut().unwrap().sqrt_sum = 1 << 33;
    assert_eq!(finalize_round(&mut ctx, DEADLINE + 1), overflow);
    assert_eq!(ctx.projects[0].project.as_ref().unwrap().qf_score, 0);
}

#[test]
fn finalizing_is_refused_whatever_the_count() {
    let mut ctx = two_projects();
    ctx.round.project_count = 11;
    assert_eq!(
        finalize_round(&mut ctx, DEADLINE),
        Err(FinalizeError::Program(QfError::DeadlineNotReached))
    );
    assert_eq!(
        try_finalize_round(&mut ctx, DEADLINE + 1),
        Some(Err(FinalizeError::Program(QfError::InvalidProjectAccount)))
    );
    ctx.round.finalized = true;
    assert_eq!(
        finalize_round(&mut ctx, DEADLINE + 1),
        Err(FinalizeError::Program(QfError::RoundFinalized))
    );
    assert_eq!(
        check_round(&ctx, DEADLINE + 1),
        Err(FinalizeError::Program(QfError::RoundFinalized))
    );
    assert_eq!(check_round(&two_projects(), DEADLINE + 1), Ok(()));
}

#[test]
fn finalizing_at_given_addresses() {
    let mut ctx = two_projects();
    ctx.projects[0].key = key(31);
    ctx.projects[1].key = key(32);
    assert_eq!(
        finalize_at_addresses(&mut ctx, &vec![key(31), key(33)], DEADLINE + 1),
        Err(FinalizeError::Program(QfError::InvalidProjectAccount))
    );
    assert_eq!(
        finalize_at_addresses(&mut ctx, &vec![key(31), key(32)], DEADLINE + 1),
        Ok(())
    );
    assert_eq!(ctx.round.total_qf_score, 25);
}

#[test]
fn empty_round_is_finalized_with_no_score() {
    let mut ctx = FinalizeRound {
        round_key: key(ROUND),
        round: open_round(),
        projects: Vec::new(),
    };
    assert_eq!(finalize_round(&mut ctx, DEADLINE + 1), Ok(()));
    assert!(ctx.round.finalized);
    assert_eq!(ctx.round.total_qf_score, 0);
}

#[test]
fn payout_is_donations_and_share() {
    let mut ctx = claim(1000, 25, 100, 7);
    assert_eq!(match_amount(&ctx.round, &ctx.project), Some(250));
    assert_eq!(claim_amount(&ctx, 100), Ok(257));
    assert_eq!(claim_payout(&mut ctx, 100), Ok(()));
    assert_eq!(ctx.owner_lamports, 262);
    assert_eq!(ctx.round_lamports, 9_743);
    assert!(ctx.project.claimed);
    assert_eq!(claim_payout(&mut ctx, 100), Err(QfError::AlreadyClaimed));
    assert_eq!(ctx.owner_lamports, 262);
}

#[test]
fn share_is_rounded_down() {
    assert_eq!(claim_amount(&claim(10, 1, 3, 0), 0), Ok(3));
    assert_eq!(claim_amount(&claim(10, 2, 3, 0), 0), Ok(6));
    assert_eq!(claim_amount(&claim(10, 3, 3, 0), 0), Ok(10));
}

#[test]
fn no_scores_no_shares() {
    assert_eq!(claim_amount(&claim(1000, 0, 0, 7), 0), Ok(7));
}

#[test]
fn claim_refusals_come_in_order() {
    let mut ctx = claim(1000, 25, 100, 7);
    ctx.round.finalized = false;
    ctx.project.claimed = true;
    ctx.owner = key(3);
    assert_eq!(claim_payout(&mut ctx, 0), Err(QfError::InvalidProjectAccount));
    ctx.owner = key(2);
    ctx.round_key = key(99);
    assert_eq!(claim_payout(&mut ctx, 0), Err(QfError::InvalidProjectAccount));
    ctx.round_key = key(ROUND);
    assert_eq!(claim_payout(&mut ctx, 0), Err(QfError::RoundNotFinalized));
    ctx.round.finalized = true;
    assert_eq!(claim_payout(&mut ctx, 0), Err(QfError::AlreadyClaimed));
}

#[test]
fn claim_overflows() {
    let ctx = claim(u64::MAX, u128::MAX, u128::MAX, 0);
    assert_eq!(match_amount(&ctx.round, &ctx.project), None);
    assert_eq!(claim_amount(&ctx, 0), Err(QfError::MathOverflow));
    let ctx = claim(2, 1 << 64, 1, 0);
    assert_eq!(claim_amount(&ctx, 0), Err(QfError::MathOverflow));
    let ctx = claim(1, 1, 1, u64::MAX);
    assert_eq!(claim_amount(&ctx, 0), Err(QfError::MathOverflow));
}

#[test]
fn claim_leaves_the_minimum() {
    let mut ctx = claim(1000, 25, 100, 7);
    ctx.round_lamports = 356;
    assert_eq!(claim_payout(&mut ctx, 100), Err(QfError::InsufficientFunds));
    ctx.round_lamports = 99;
    assert_eq!(claim_amount(&ctx, 100), Err(QfError::InsufficientFunds));
    ctx.round_lamports = 357;
    assert_eq!(claim_payout(&mut ctx, 100), Ok(()));
    assert_eq!(ctx.round_lamports, 100);
}

#[test]
fn errors_have_messages() {
    assert_eq!(
        QfError::InvalidProjectCount.message(),
        "Round already has the maximum number of projects"
    );
    assert_eq!(QfError::RoundFinalized.message(), "Round has already been finalized");
    assert_eq!(QfError::RoundNotFinalized.message(), "Round has not been finalized yet");
    assert_eq!(QfError::DeadlinePassed.message(), "This round's deadline has already passed");
    assert_eq!(
        QfError::DeadlineNotReached.message(),
        "This round's deadline has not been reached yet"
    );
    assert_eq!(QfError::AlreadyClaimed.message(), "This project has already claimed its payout");
    assert_eq!(
        QfError::InvalidProjectAccount.message(),
        "Provided project account does not match the expected address"
    );
    assert_eq!(QfError::InvalidAmount.message(), "Amount must be greater than zero");
    assert_eq!(
        QfError::InsufficientFunds.message(),
        "Round does not have enough funds for this payout"
    );
    assert_eq!(QfError::NameTooLong.message(), "Project name must be 50 characters or fewer");
    assert_eq!(QfError::MathOverflow.message(), "Arithmetic overflow");
}
