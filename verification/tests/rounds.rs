use anchor_lang::AnchorSerialize;
use solana_quadratic_funding::{
    claim_amount, claim_payout, create_round, donate, finalize_round, fund_matching_pool,
    match_amount, project_pda, register_project, ClaimPayout, Contribution, CreateRound, Donate, FinalizeRound,
    FundMatchingPool, Project, ProjectAccount, Pubkey, RegisterProject, Round, MAX_PROJECTS,
};

const MINIMUM: u64 = 3_000;

fn key(n: u8) -> Pubkey {
    Pubkey { bytes: [n; 32] }
}

fn blank_round() -> Round {
    Round {
        creator: key(0),
        round_id: 0,
        deadline_unix: 0,
        project_owners: [key(0); 10],
        project_count: 0,
        matching_pool_total: 0,
        total_qf_score: 0,
        finalized: false,
        bump: 0,
    }
}

fn blank_project() -> Project {
    Project {
        round: key(0),
        owner: key(0),
        name: String::new(),
        total_donated: 0,
        sqrt_sum: 0,
        donor_count: 0,
        qf_score: 0,
        claimed: false,
        bump: 0,
    }
}

fn blank_contribution() -> Contribution {
    Contribution { donor: key(0), project: key(0), amount: 0, bump: 0 }
}

fn gifts(donors: &[u64]) -> Project {
    let mut ctx = Donate {
        donor: key(1),
        round_key: key(100),
        round: Round { deadline_unix: 10, ..blank_round() },
        project_key: key(60),
        project: Project { round: key(100), owner: key(2), ..blank_project() },
        contribution: blank_contribution(),
        bump: 1,
    };
    for (i, amount) in donors.iter().enumerate() {
        ctx.donor = Pubkey { bytes: [i as u8 + 1; 32] };
        ctx.contribution = blank_contribution();
        donate(&mut ctx, *amount, 0).unwrap();
    }
    ctx.project
}

fn score(p: &Project) -> u128 {
    p.sqrt_sum * p.sqrt_sum
}

#[test]
fn hundred_donors_beat_one() {
    let broad = gifts(&[1_000_000; 100]);
    let single = gifts(&[100_000_000]);
    assert_eq!(broad.total_donated, single.total_donated);
    assert_eq!(score(&broad), 10_000_000_000);
    assert_eq!(score(&single), 100_000_000);
    assert!(score(&broad) > score(&single));
}

#[test]
fn breadth_never_hurts() {
    for split in [vec![3u64, 3, 3], vec![2, 2], vec![1, 8], vec![4, 4, 4, 4], vec![5, 6, 7]] {
        let total: u64 = split.iter().sum();
        assert!(score(&gifts(&split)) >= score(&gifts(&[total])));
    }
    assert_eq!(score(&gifts(&[3, 3, 3])), score(&gifts(&[9])));
    assert!(score(&gifts(&[3, 3, 3, 3])) > score(&gifts(&[12])));
}

#[test]
fn splitting_a_donation_gains_nothing() {
    let start = || Donate {
        donor: key(1),
        round_key: key(100),
        round: Round { deadline_unix: 10, ..blank_round() },
        project_key: key(60),
        project: Project { round: key(100), owner: key(2), ..blank_project() },
        contribution: blank_contribution(),
        bump: 1,
    };
    let mut many = start();
    for _ in 0..100 {
        donate(&mut many, 1_000_000, 3).unwrap();
    }
    let mut once = start();
    donate(&mut once, 100_000_000, 3).unwrap();
    assert_eq!(many.project.sqrt_sum, 10_000);
    assert_eq!(many.project.sqrt_sum, once.project.sqrt_sum);
    assert_eq!(many.project.total_donated, once.project.total_donated);
    assert_eq!(many.project.donor_count, once.project.donor_count);
    assert_eq!(many.contribution.amount, once.contribution.amount);
}

#[test]
fn round_from_start_to_payout() {
    let round_key = key(100);
    let mut created = CreateRound { creator: key(90), round: blank_round(), bump: 9 };
    create_round(&mut created, 1, 1_000, 0).unwrap();
    let mut round = created.round;
    let mut lamports: u64 = MINIMUM;

    let mut projects: Vec<Project> = Vec::new();
    for owner in [11u8, 12, 13] {
        let mut ctx = RegisterProject {
            owner: key(owner),
            round_key,
            round,
            project: blank_project(),
            bump: 8,
        };
        register_project(&mut ctx, "project".to_string(), 10).unwrap();
        round = ctx.round;
        projects.push(ctx.project);
    }

    let mut funding = FundMatchingPool { sponsor: key(80), round_key, round };
    lamports += fund_matching_pool(&mut funding, 1_000).unwrap().lamports;
    round = funding.round;

    let donations: [(usize, u8, u64); 6] =
        [(0, 1, 100), (0, 2, 100), (0, 3, 100), (1, 1, 300), (2, 4, 7), (0, 1, 44)];
    let mut contributions = vec![vec![blank_contribution(); 5]; 3];
    for (p, donor, amount) in donations {
        let mut ctx = Donate {
            donor: key(donor),
            round_key,
            round,
            project_key: project_pda(&round_key, &projects[p].owner).unwrap(),
            project: projects[p].clone(),
            contribution: contributions[p][donor as usize],
            bump: 7,
        };
        lamports += donate(&mut ctx, amount, 20).unwrap().lamports;
        projects[p] = ctx.project;
        contributions[p][donor as usize] = ctx.contribution;
    }
    assert_eq!(projects[0].sqrt_sum, 12 + 10 + 10);
    assert_eq!(projects[0].donor_count, 3);
    assert_eq!(projects[0].total_donated, 344);
    assert_eq!(projects[1].sqrt_sum, 17);
    assert_eq!(projects[2].sqrt_sum, 2);

    let mut last = FinalizeRound {
        round_key,
        round,
        projects: projects
            .iter()
            .map(|p| ProjectAccount {
                key: project_pda(&round_key, &p.owner).unwrap(),
                project: Some(p.clone()),
            })
            .collect(),
    };
    finalize_round(&mut last, 1_001).unwrap();
    round = last.round;
    assert_eq!(round.total_qf_score, 1_024 + 289 + 4);

    let expected: [u64; 3] = [344 + 777, 300 + 219, 7 + 3];
    for (account, payout) in last.projects.into_iter().zip(expected) {
        let project = account.project.unwrap();
        let mut ctx = ClaimPayout {
            owner: project.owner,
            owner_lamports: 0,
            round_key,
            round,
            round_lamports: lamports,
            project,
        };
        assert_eq!(claim_amount(&ctx, MINIMUM), Ok(payout));
        claim_payout(&mut ctx, MINIMUM).unwrap();
        assert_eq!(ctx.owner_lamports, payout);
        assert_eq!(ctx.owner_lamports + ctx.round_lamports, lamports);
        lamports = ctx.round_lamports;
    }
    assert_eq!(lamports, MINIMUM + 1);
}

#[test]
fn donors_may_come_in_any_order() {
    let forward = gifts(&[10, 300, 7]);
    let backward = gifts(&[7, 300, 10]);
    assert_eq!(forward.sqrt_sum, 3 + 17 + 2);
    assert_eq!(forward.sqrt_sum, backward.sqrt_sum);
    assert_eq!(forward.total_donated, backward.total_donated);
    assert_eq!(forward.donor_count, backward.donor_count);
}

#[test]
fn roots_never_exceed_what_was_given() {
    for donors in [vec![1u64; 20], vec![2; 20], vec![u64::MAX / 2, u64::MAX / 2]] {
        let p = gifts(&donors);
        assert!(p.sqrt_sum <= p.total_donated as u128);
    }
}

#[test]
fn free_slots_stay_blank() {
    let mut ctx = RegisterProject {
        owner: key(5),
        round_key: key(100),
        round: Round { deadline_unix: 10, ..blank_round() },
        project: blank_project(),
        bump: 1,
    };
    register_project(&mut ctx, "p".to_string(), 0).unwrap();
    assert_eq!(ctx.round.project_owners[0], key(5));
    for i in 1..10 {
        assert_eq!(ctx.round.project_owners[i], key(0));
    }
}

#[test]
fn round_holds_its_registrants_through_other_instructions() {
    let mut created = CreateRound { creator: key(90), round: blank_round(), bump: 9 };
    create_round(&mut created, 1, 1_000, 0).unwrap();
    let mut round = created.round;
    let registering = [31u8, 7, 250, 12];
    for owner in registering {
        let mut ctx = RegisterProject {
            owner: key(owner),
            round_key: key(100),
            round,
            project: blank_project(),
            bump: 8,
        };
        register_project(&mut ctx, "p".to_string(), 10).unwrap();
        let mut funding =
            FundMatchingPool { sponsor: key(80), round_key: key(100), round: ctx.round };
        fund_matching_pool(&mut funding, 5).unwrap();
        let mut giving = Donate {
            donor: key(1),
            round_key: key(100),
            round: funding.round,
            project_key: key(60),
            project: ctx.project,
            contribution: blank_contribution(),
            bump: 1,
        };
        donate(&mut giving, 3, 20).unwrap();
        round = giving.round;
    }
    let owners = round.registered_owners();
    assert_eq!(owners, vec![key(31), key(7), key(250), key(12)]);
    assert_eq!(round.project_count, 4);
    for i in 0..4 {
        for j in 0..i {
            assert!(owners[i] != owners[j]);
        }
    }
    for i in 4..10 {
        assert_eq!(round.project_owners[i], Pubkey::default());
    }
    assert_eq!(round.matching_pool_total, 20);
    assert_eq!(round.deadline_unix, 1_000);
}

#[test]
fn higher_score_gets_no_less() {
    let round = Round { matching_pool_total: 1_000, total_qf_score: 99, ..blank_round() };
    let mut last = 0;
    for score in 0..100u128 {
        let p = Project { qf_score: score, ..blank_project() };
        let share = match_amount(&round, &p).unwrap();
        assert!(share >= last);
        last = share;
    }
    assert_eq!(last, 1_000);
}

#[test]
fn accounts_have_their_sizes() {
    assert_eq!(MAX_PROJECTS, 10);
    assert_eq!(Round::MAX_SIZE, 403);
    assert_eq!(Project::MAX_SIZE, 172);
    assert_eq!(Contribution::MAX_SIZE, 81);
}

#[test]
fn longest_name_fits_its_account() {
    let p = Project { name: "x".repeat(50), ..blank_project() };
    let mut stored: Vec<u8> = vec![0; 8];
    p.round.bytes.serialize(&mut stored).unwrap();
    p.owner.bytes.serialize(&mut stored).unwrap();
    p.name.serialize(&mut stored).unwrap();
    p.total_donated.serialize(&mut stored).unwrap();
    p.sqrt_sum.serialize(&mut stored).unwrap();
    p.donor_count.serialize(&mut stored).unwrap();
    p.qf_score.serialize(&mut stored).unwrap();
    p.claimed.serialize(&mut stored).unwrap();
    p.bump.serialize(&mut stored).unwrap();
    assert_eq!(stored.len(), Project::MAX_SIZE);
}
