//! Scoring the projects once the deadline has passed.
use vstd::prelude::*;
use crate::accounts::{FinalizeRound, ProjectAccount};
use crate::address;
use crate::address::derive_project_pdas;
use crate::error::QfError;
use crate::key;
use crate::key::Pubkey;
use crate::state::{Project, Round};
use crate::sums;

verus! {

/// Why a round cannot be finalized.
#[derive(Clone, Copy, Debug, PartialEq, Eq, Structural)]
pub enum FinalizeError {
    /// A rule of the round forbids it.
    Program(QfError),
    /// The account at this place is the right one, but does not hold a project.
    Unreadable(usize),
}

/// The score of a project: the square of the sum of its donors' roots.
pub open spec fn score(project: Project) -> nat {
    project.sqrt_sum as nat * project.sqrt_sum as nat
}

/// The sum of the scores of some projects.
pub open spec fn total_score(projects: Seq<Project>) -> int {
    sums::sum(projects, |p: Project| score(p) as int)
}

/// What some accounts hold.
pub open spec fn projects_of(accounts: Seq<ProjectAccount>) -> Seq<Project> {
    accounts.map_values(|a: ProjectAccount| a.project->0)
}

/// What is wrong with the account at place `i`, if anything is: it is not at
/// the address where it should be, it does not hold a project, or the scores up
/// to it no longer fit in a total.
pub open spec fn account_fault(
    accounts: Seq<ProjectAccount>,
    addresses: Seq<Seq<u8>>,
    i: int,
) -> Option<FinalizeError> {
    if accounts[i].key@ != addresses[i] {
        Some(FinalizeError::Program(QfError::InvalidProjectAccount))
    } else if accounts[i].project is None {
        Some(FinalizeError::Unreadable(i as usize))
    } else if total_score(projects_of(accounts).take(i + 1)) > u128::MAX {
        Some(FinalizeError::Program(QfError::MathOverflow))
    } else {
        None
    }
}

/// What is wrong with the first of the accounts before place `n` with which
/// anything is wrong.
pub open spec fn first_fault(
    accounts: Seq<ProjectAccount>,
    addresses: Seq<Seq<u8>>,
    n: int,
) -> Option<FinalizeError>
    decreases n,
{
    if n <= 0 {
        None
    } else if first_fault(accounts, addresses, n - 1) is Some {
        first_fault(accounts, addresses, n - 1)
    } else {
        account_fault(accounts, addresses, n - 1)
    }
}

/// Why the round cannot be finalized whatever the accounts hold, if it cannot.
pub open spec fn round_refusal(ctx: FinalizeRound, now: i64) -> Option<FinalizeError> {
    if ctx.round.finalized {
        Some(FinalizeError::Program(QfError::RoundFinalized))
    } else if now <= ctx.round.deadline_unix {
        Some(FinalizeError::Program(QfError::DeadlineNotReached))
    } else if ctx.projects@.len() != ctx.round.project_count {
        Some(FinalizeError::Program(QfError::InvalidProjectAccount))
    } else {
        None
    }
}

/// Why the round cannot be finalized, if it cannot, where `addresses` are those
/// of its projects.
pub open spec fn finalize_refusal(
    ctx: FinalizeRound,
    addresses: Seq<Seq<u8>>,
    now: i64,
) -> Option<FinalizeError> {
    if round_refusal(ctx, now) is Some {
        round_refusal(ctx, now)
    } else {
        first_fault(ctx.projects@, addresses, ctx.projects@.len() as int)
    }
}

/// Going through the accounts in order, one gets to a project that has no
/// address before getting to an account with which anything is wrong.
pub open spec fn meets_missing_address(ctx: FinalizeRound, now: i64) -> bool {
    &&& round_refusal(ctx, now) is None
    &&& exists|i: int|
        {
            &&& 0 <= i < ctx.round.owners().len()
            &&& (#[trigger] address::project_address(ctx.round_key, ctx.round.owners()[i])) is None
            &&& first_fault(
                ctx.projects@,
                address::project_addresses(ctx.round_key, ctx.round),
                i,
            ) is None
        }
}

/// The project with its score written down.
pub open spec fn scored(project: Project) -> Project {
    Project { qf_score: score(project) as u128, ..project }
}

/// The account with the score of its project written down.
pub open spec fn scored_account(account: ProjectAccount) -> ProjectAccount {
    ProjectAccount { project: Some(scored(account.project->0)), ..account }
}

/// The round, finalized with these projects.
pub open spec fn finalized(round: Round, projects: Seq<Project>) -> Round {
    Round { total_qf_score: total_score(projects) as u128, finalized: true, ..round }
}

/// `after` is what finalizing makes of `before`.
pub open spec fn is_finalized_from(before: FinalizeRound, after: FinalizeRound) -> bool {
    &&& after.round_key == before.round_key
    &&& after.round == finalized(before.round, projects_of(before.projects@))
    &&& after.projects@ == before.projects@.map_values(|a: ProjectAccount| scored_account(a))
}

/// Adding an account adds its score.
proof fn lemma_score_prefix(accounts: Seq<ProjectAccount>, i: int)
    requires
        0 <= i < accounts.len(),
    ensures
        total_score(projects_of(accounts).take(i + 1)) == total_score(
            projects_of(accounts).take(i),
        ) + score(accounts[i].project->0),
{
    let all = projects_of(accounts);
    assert(all.take(i + 1) =~= all.take(i).push(all[i]));
    sums::lemma_sum_push(all.take(i), all[i], |p: Project| score(p) as int);
}

/// A fault before `n` is still the first one before a later `m`.
proof fn lemma_fault_stays(
    accounts: Seq<ProjectAccount>,
    addresses: Seq<Seq<u8>>,
    n: int,
    m: int,
)
    requires
        n <= m,
        first_fault(accounts, addresses, n) is Some,
    ensures
        first_fault(accounts, addresses, m) == first_fault(accounts, addresses, n),
    decreases m - n,
{
    if n < m {
        lemma_fault_stays(accounts, addresses, n, m - 1);
        if m <= 0 {
            assert(first_fault(accounts, addresses, n) is None);
        }
    }
}

/// Faults before `n` depend on the addresses before `n` only.
proof fn lemma_fault_by_prefix(
    accounts: Seq<ProjectAccount>,
    a: Seq<Seq<u8>>,
    b: Seq<Seq<u8>>,
    n: int,
)
    requires
        forall|i: int| 0 <= i < n ==> a[i] == b[i],
    ensures
        first_fault(accounts, a, n) == first_fault(accounts, b, n),
    decreases n,
{
    if n > 0 {
        lemma_fault_by_prefix(accounts, a, b, n - 1);
    }
}

/// No account before `n` is at fault just where each of them is at its address
/// and holds a project, and the scores fit in a total.
proof fn lemma_no_fault(accounts: Seq<ProjectAccount>, addresses: Seq<Seq<u8>>, n: int)
    requires
        0 <= n <= accounts.len(),
    ensures
        first_fault(accounts, addresses, n) is None <==> {
            &&& forall|i: int|
                0 <= i < n ==> (#[trigger] accounts[i]).key@ == addresses[i]
                    && accounts[i].project is Some
            &&& total_score(projects_of(accounts).take(n)) <= u128::MAX
        },
    decreases n,
{
    let all = projects_of(accounts);
    if n == 0 {
        assert(total_score(all.take(0)) == 0);
    } else {
        lemma_no_fault(accounts, addresses, n - 1);
        lemma_score_prefix(accounts, n - 1);
    }
}

/// A round can be finalized just where it was not finalized before, the deadline
/// has passed, there is one account for each registered project, each is at the
/// address of that project and holds a project, and the scores fit in a total.
pub proof fn law_finalizing_needs_the_right_accounts(
    ctx: FinalizeRound,
    addresses: Seq<Seq<u8>>,
    now: i64,
)
    ensures
        finalize_refusal(ctx, addresses, now) is None <==> {
            &&& !ctx.round.finalized
            &&& now > ctx.round.deadline_unix
            &&& ctx.projects@.len() == ctx.round.project_count
            &&& forall|i: int|
                0 <= i < ctx.projects@.len() ==> (#[trigger] ctx.projects@[i]).key@ == addresses[i]
                    && ctx.projects@[i].project is Some
            &&& total_score(projects_of(ctx.projects@)) <= u128::MAX
        },
{
    let n = ctx.projects@.len() as int;
    lemma_no_fault(ctx.projects@, addresses, n);
    assert(projects_of(ctx.projects@).take(n) =~= projects_of(ctx.projects@));
}

/// The scores of the first accounts add up to the sum of the squares.
proof fn lemma_total_of_squares(accounts: Seq<ProjectAccount>, n: int)
    requires
        0 <= n <= accounts.len(),
    ensures
        total_score(projects_of(accounts).take(n)) == sums::sum(
            accounts.take(n),
            |a: ProjectAccount| (a.project->0.sqrt_sum * a.project->0.sqrt_sum) as int,
        ),
{
    let f = |p: Project| score(p) as int;
    let g = |a: ProjectAccount| (a.project->0.sqrt_sum * a.project->0.sqrt_sum) as int;
    let s = projects_of(accounts).take(n);
    let t = accounts.take(n);
    assert forall|i: int| 0 <= i < s.len() implies f(#[trigger] s[i]) == g(t[i]) by {
        law_score_is_quadratic(s[i], s[i], 1);
    }
    sums::lemma_sum_same(s, t, f, g);
}

/// The score of a project is the product of its sum of roots with itself. So
/// where the sum is `k` times as large, the score is `k * k` times as large.
pub proof fn law_score_is_quadratic(p: Project, q: Project, k: int)
    requires
        p.sqrt_sum == k * q.sqrt_sum,
    ensures
        score(p) == p.sqrt_sum * p.sqrt_sum,
        score(p) == k * k * score(q),
        q.sqrt_sum == 1 ==> score(q) == 1,
{
    let a = p.sqrt_sum as int;
    let b = q.sqrt_sum as int;
    assert(a * a == k * k * (b * b)) by (nonlinear_arith)
        requires
            a == k * b,
    ;
}

/// A round can be finalized just where it was not finalized before, the deadline
/// has passed, there is one account for each registered project, each is at its
/// address and holds a project, and the squares of the sums of roots fit in a
/// total.
pub proof fn law_finalizing_is_accepted_exactly(
    ctx: FinalizeRound,
    addresses: Seq<Seq<u8>>,
    now: i64,
)
    ensures
        finalize_refusal(ctx, addresses, now) is None <==> {
            &&& !ctx.round.finalized
            &&& now > ctx.round.deadline_unix
            &&& ctx.projects@.len() == ctx.round.project_count
            &&& forall|i: int|
                0 <= i < ctx.projects@.len() ==> (#[trigger] ctx.projects@[i]).project is Some
                    && ctx.projects@[i].key@ == addresses[i]
            &&& sums::sum(
                ctx.projects@,
                |a: ProjectAccount| (a.project->0.sqrt_sum * a.project->0.sqrt_sum) as int,
            ) <= u128::MAX
        },
{
    let n = ctx.projects@.len() as int;
    law_finalizing_needs_the_right_accounts(ctx, addresses, now);
    lemma_total_of_squares(ctx.projects@, n);
    assert(projects_of(ctx.projects@).take(n) =~= projects_of(ctx.projects@));
    assert(ctx.projects@.take(n) =~= ctx.projects@);
}

/// What holds of the round comes first among the reasons: that it is finalized,
/// then that the deadline is not past, then that the number of accounts is not
/// the number of projects.
pub proof fn law_round_is_looked_at_first(ctx: FinalizeRound, addresses: Seq<Seq<u8>>, now: i64)
    ensures
        ({
            let refusal = finalize_refusal(ctx, addresses, now);
            let early = now <= ctx.round.deadline_unix;
            let miscounted = ctx.projects@.len() != ctx.round.project_count;
            &&& ctx.round.finalized ==> refusal == Some(
                FinalizeError::Program(QfError::RoundFinalized),
            )
            &&& !ctx.round.finalized && early ==> refusal == Some(
                FinalizeError::Program(QfError::DeadlineNotReached),
            )
            &&& !ctx.round.finalized && !early && miscounted ==> refusal == Some(
                FinalizeError::Program(QfError::InvalidProjectAccount),
            )
            &&& round_refusal(ctx, now) is None <==> !ctx.round.finalized && !early && !miscounted
            &&& round_refusal(ctx, now) is Some ==> round_refusal(ctx, now) == refusal
        }),
{
}

/// Where nothing is wrong with the round nor with the accounts before place `i`,
/// what is wrong with the account at `i` is the reason: that it is not at its
/// address, then that it does not hold a project, then that the squares up to it
/// do not fit in a total.
pub proof fn law_first_fault_is_the_reason(
    ctx: FinalizeRound,
    addresses: Seq<Seq<u8>>,
    now: i64,
    i: int,
)
    requires
        !ctx.round.finalized,
        now > ctx.round.deadline_unix,
        ctx.projects@.len() == ctx.round.project_count,
        0 <= i < ctx.projects@.len(),
        forall|j: int|
            0 <= j < i ==> (#[trigger] ctx.projects@[j]).key@ == addresses[j]
                && ctx.projects@[j].project is Some,
        sums::sum(
            ctx.projects@.take(i),
            |a: ProjectAccount| (a.project->0.sqrt_sum * a.project->0.sqrt_sum) as int,
        ) <= u128::MAX,
    ensures
        ({
            let refusal = finalize_refusal(ctx, addresses, now);
            let misplaced = ctx.projects@[i].key@ != addresses[i];
            let total = sums::sum(
                ctx.projects@.take(i + 1),
                |a: ProjectAccount| (a.project->0.sqrt_sum * a.project->0.sqrt_sum) as int,
            );
            &&& misplaced ==> refusal == Some(
                FinalizeError::Program(QfError::InvalidProjectAccount),
            )
            &&& !misplaced && ctx.projects@[i].project is None ==> refusal == Some(
                FinalizeError::Unreadable(i as usize),
            )
            &&& !misplaced && ctx.projects@[i].project is Some && total > u128::MAX ==> refusal
                == Some(FinalizeError::Program(QfError::MathOverflow))
        }),
{
    let n = ctx.projects@.len() as int;
    lemma_total_of_squares(ctx.projects@, i);
    lemma_total_of_squares(ctx.projects@, i + 1);
    lemma_no_fault(ctx.projects@, addresses, i);
    if first_fault(ctx.projects@, addresses, i + 1) is Some {
        lemma_fault_stays(ctx.projects@, addresses, i + 1, n);
    }
}

/// Finalizing writes the square of the sum of roots of each project on it, and
/// the sum of these squares on the round, which is then finalized. Nothing else
/// changes.
pub proof fn law_finalizing_squares_the_sums(before: FinalizeRound, after: FinalizeRound)
    requires
        is_finalized_from(before, after),
        forall|i: int|
            0 <= i < before.projects@.len() ==> (#[trigger] before.projects@[i]).project is Some,
        sums::sum(
            before.projects@,
            |a: ProjectAccount| (a.project->0.sqrt_sum * a.project->0.sqrt_sum) as int,
        ) <= u128::MAX,
    ensures
        ({
            &&& after.round_key == before.round_key
            &&& after.round == (Round {
                total_qf_score: after.round.total_qf_score,
                finalized: true,
                ..before.round
            })
            &&& after.round.total_qf_score == sums::sum(
                before.projects@,
                |a: ProjectAccount| (a.project->0.sqrt_sum * a.project->0.sqrt_sum) as int,
            )
            &&& after.projects@.len() == before.projects@.len()
            &&& forall|i: int|
                0 <= i < before.projects@.len() ==> {
                    let p = before.projects@[i].project->0;
                    let q = (#[trigger] after.projects@[i]).project->0;
                    &&& before.projects@[i].project is Some
                    &&& after.projects@[i].project is Some
                    &&& after.projects@[i].key == before.projects@[i].key
                    &&& q.qf_score == p.sqrt_sum * p.sqrt_sum
                    &&& q == (Project { qf_score: q.qf_score, ..p })
                }
        }),
        after.round.total_qf_score == sums::sum(
            after.projects@,
            |a: ProjectAccount| a.project->0.qf_score as int,
        ),
{
    let n = before.projects@.len() as int;
    let f = |a: ProjectAccount| (a.project->0.sqrt_sum * a.project->0.sqrt_sum) as int;
    let g = |a: ProjectAccount| a.project->0.qf_score as int;
    lemma_total_of_squares(before.projects@, n);
    assert(projects_of(before.projects@).take(n) =~= projects_of(before.projects@));
    assert(before.projects@.take(n) =~= before.projects@);
    assert forall|i: int| 0 <= i < n implies f(#[trigger] before.projects@[i]) >= 0 by {
        let b = before.projects@[i].project->0.sqrt_sum as int;
        assert(b * b >= 0) by (nonlinear_arith);
    }
    sums::lemma_sum_covers(before.projects@, f);
    assert forall|i: int| 0 <= i < n implies (#[trigger] after.projects@[i]).project->0.qf_score
        == before.projects@[i].project->0.sqrt_sum * before.projects@[i].project->0.sqrt_sum by {
        let p = before.projects@[i].project->0;
        assert(f(before.projects@[i]) <= sums::sum(before.projects@, f));
        law_score_is_quadratic(p, p, 1);
    }
    assert forall|i: int| 0 <= i < n implies f(#[trigger] before.projects@[i]) == g(
        after.projects@[i],
    ) by {}
    sums::lemma_sum_same(before.projects@, after.projects@, f, g);
}

/// The account holds a project whose score fits where it is kept.
pub open spec fn can_be_scored(account: ProjectAccount) -> bool {
    account.project is Some && score(account.project->0) <= u128::MAX
}

/// Writes down the score of each project.
fn write_scores(accounts: &mut Vec<ProjectAccount>)
    requires
        forall|j: int| 0 <= j < old(accounts)@.len() ==> can_be_scored(#[trigger] old(accounts)@[j]),
    ensures
        final(accounts)@ == old(accounts)@.map_values(|a: ProjectAccount| scored_account(a)),
{
    let n: usize = accounts.len();
    let ghost before = accounts@;
    let mut i: usize = 0;
    while i < n
        invariant
            i <= n == before.len(),
            accounts@.len() == n,
            forall|j: int| 0 <= j < n ==> can_be_scored(#[trigger] before[j]),
            forall|j: int| 0 <= j < i ==> (#[trigger] accounts@[j]) == scored_account(before[j]),
            forall|j: int| i <= j < n ==> (#[trigger] accounts@[j]) == before[j],
        decreases n - i,
    {
        assert(can_be_scored(before[i as int]));
        if let Some(project) = &mut accounts[i].project {
            project.qf_score = project.sqrt_sum * project.sqrt_sum;
        }
        i += 1;
    }
    assert(accounts@ =~= before.map_values(|a: ProjectAccount| scored_account(a)));
}

/// Checks whether the round can be finalized, whatever the accounts hold.
pub fn check_round(ctx: &FinalizeRound, now: i64) -> (r: Result<(), FinalizeError>)
    ensures
        r == match round_refusal(*ctx, now) {
            Some(e) => Err::<(), FinalizeError>(e),
            None => Ok(()),
        },
        r is Ok <==> {
            &&& !ctx.round.finalized
            &&& now > ctx.round.deadline_unix
            &&& ctx.projects@.len() == ctx.round.project_count
        },
{
    if ctx.round.finalized {
        return Err(FinalizeError::Program(QfError::RoundFinalized));
    }
    if now <= ctx.round.deadline_unix {
        return Err(FinalizeError::Program(QfError::DeadlineNotReached));
    }
    if ctx.projects.len() != ctx.round.project_count as usize {
        return Err(FinalizeError::Program(QfError::InvalidProjectAccount));
    }
    Ok(())
}

/// Goes through the accounts for which there are addresses, in order, and returns
/// the sum of the scores, or what is wrong with the first account with which
/// anything is wrong.
fn add_scores(accounts: &Vec<ProjectAccount>, addresses: &Vec<Pubkey>) -> (r: Result<
    u128,
    FinalizeError,
>)
    requires
        addresses@.len() <= accounts@.len(),
    ensures
        match first_fault(
            accounts@,
            address::key_bytes(addresses@),
            addresses@.len() as int,
        ) {
            Some(e) => r == Err::<u128, FinalizeError>(e),
            None => {
                &&& r is Ok
                &&& r->Ok_0 == total_score(projects_of(accounts@).take(addresses@.len() as int))
                &&& forall|j: int|
                    0 <= j < addresses@.len() ==> can_be_scored(#[trigger] accounts@[j])
            },
        },
{
    let n: usize = addresses.len();
    let ghost places = address::key_bytes(addresses@);
    let mut total: u128 = 0;
    let mut i: usize = 0;
    while i < n
        invariant
            places == address::key_bytes(addresses@),
            n == addresses@.len() <= accounts@.len(),
            i <= n,
            first_fault(accounts@, places, i as int) is None,
            total == total_score(projects_of(accounts@).take(i as int)),
            forall|j: int| 0 <= j < i ==> can_be_scored(#[trigger] accounts@[j]),
        decreases n - i,
    {
        proof {
            lemma_score_prefix(accounts@, i as int);
            if account_fault(accounts@, places, i as int) is Some {
                lemma_fault_stays(accounts@, places, i + 1, n as int);
            }
        }
        if accounts[i].key != addresses[i] {
            proof {
                if accounts@[i as int].key@ == places[i as int] {
                    key::lemma_key_is_its_bytes(accounts@[i as int].key, addresses@[i as int]);
                }
            }
            return Err(FinalizeError::Program(QfError::InvalidProjectAccount));
        }
        let root_sum: u128 = match &accounts[i].project {
            Some(p) => p.sqrt_sum,
            None => return Err(FinalizeError::Unreadable(i)),
        };
        let score: u128 = match root_sum.checked_mul(root_sum) {
            Some(v) => v,
            None => return Err(FinalizeError::Program(QfError::MathOverflow)),
        };
        total = match total.checked_add(score) {
            Some(v) => v,
            None => return Err(FinalizeError::Program(QfError::MathOverflow)),
        };
        i += 1;
    }
    Ok(total)
}

/// Writes down the score of each project and their total, and closes the round.
fn close_round(ctx: &mut FinalizeRound, total: u128)
    requires
        total == total_score(
            projects_of(old(ctx).projects@).take(old(ctx).projects@.len() as int),
        ),
        forall|j: int|
            0 <= j < old(ctx).projects@.len() ==> can_be_scored(
                #[trigger] old(ctx).projects@[j],
            ),
    ensures
        is_finalized_from(*old(ctx), *final(ctx)),
{
    proof {
        let all = projects_of(ctx.projects@);
        assert(all.take(ctx.projects@.len() as int) =~= all);
    }
    write_scores(&mut ctx.projects);
    ctx.round.total_qf_score = total;
    ctx.round.finalized = true;
}

/// Finalizes a round whose projects live at `addresses`, given in order of
/// registration: writes down the score of each project and their total. A
/// refused call changes nothing.
pub fn finalize_at_addresses(
    ctx: &mut FinalizeRound,
    addresses: &Vec<Pubkey>,
    now: i64,
) -> (r: Result<(), FinalizeError>)
    requires
        addresses@.len() == old(ctx).round.project_count,
    ensures
        match finalize_refusal(*old(ctx), address::key_bytes(addresses@), now) {
            Some(e) => r == Err::<(), FinalizeError>(e) && *final(ctx) == *old(ctx),
            None => r is Ok && is_finalized_from(*old(ctx), *final(ctx)),
        },
        r is Ok <==> {
            &&& !old(ctx).round.finalized
            &&& now > old(ctx).round.deadline_unix
            &&& old(ctx).projects@.len() == old(ctx).round.project_count
            &&& forall|i: int|
                0 <= i < old(ctx).projects@.len() ==> (#[trigger] old(ctx).projects@[i]).project is Some
                    && old(ctx).projects@[i].key@ == addresses@[i]@
            &&& sums::sum(
                old(ctx).projects@,
                |a: ProjectAccount| (a.project->0.sqrt_sum * a.project->0.sqrt_sum) as int,
            ) <= u128::MAX
        },
        r is Err ==> *final(ctx) == *old(ctx),
        r is Ok ==> {
            &&& final(ctx).round_key == old(ctx).round_key
            &&& final(ctx).round == (Round {
                total_qf_score: final(ctx).round.total_qf_score,
                finalized: true,
                ..old(ctx).round
            })
            &&& final(ctx).round.total_qf_score == sums::sum(
                old(ctx).projects@,
                |a: ProjectAccount| (a.project->0.sqrt_sum * a.project->0.sqrt_sum) as int,
            )
            &&& final(ctx).projects@.len() == old(ctx).projects@.len()
            &&& forall|i: int|
                0 <= i < old(ctx).projects@.len() ==> {
                    let p = old(ctx).projects@[i].project->0;
                    let q = (#[trigger] final(ctx).projects@[i]).project->0;
                    &&& old(ctx).projects@[i].project is Some
                    &&& final(ctx).projects@[i].project is Some
                    &&& final(ctx).projects@[i].key == old(ctx).projects@[i].key
                    &&& q.qf_score == p.sqrt_sum * p.sqrt_sum
                    &&& q == (Project { qf_score: q.qf_score, ..p })
                }
        },
{
    let ghost before = *ctx;
    proof {
        let places = address::key_bytes(addresses@);
        law_finalizing_is_accepted_exactly(before, places, now);
        if before.projects@.len() == addresses@.len() {
            assert forall|i: int| 0 <= i < before.projects@.len() implies places[i]
                == #[trigger] addresses@[i]@ by {}
        }
    }
    match check_round(ctx, now) {
        Ok(()) => {},
        Err(e) => return Err(e),
    }
    let total: u128 = match add_scores(&ctx.projects, addresses) {
        Ok(v) => v,
        Err(e) => return Err(e),
    };
    close_round(ctx, total);
    proof {
        law_finalizing_squares_the_sums(before, *ctx);
    }
    Ok(())
}

/// The addresses that were derived are those of the first projects, and the
/// project after them, if there is one, has none.
proof fn lemma_derived_prefix(ctx: FinalizeRound, now: i64, found: Seq<Seq<u8>>)
    requires
        ctx.round.well_formed(),
        round_refusal(ctx, now) is None,
        address::is_derived_prefix(ctx.round_key, ctx.round, found),
    ensures
        ({
            let addresses = address::project_addresses(ctx.round_key, ctx.round);
            let m = found.len() as int;
            &&& first_fault(ctx.projects@, found, m) == first_fault(ctx.projects@, addresses, m)
            &&& first_fault(ctx.projects@, found, m) is Some ==> finalize_refusal(
                ctx,
                addresses,
                now,
            ) == first_fault(ctx.projects@, found, m)
            &&& meets_missing_address(ctx, now) <==> m < ctx.round.owners().len() && first_fault(
                ctx.projects@,
                found,
                m,
            ) is None
        }),
{
    let addresses = address::project_addresses(ctx.round_key, ctx.round);
    let owners = ctx.round.owners();
    let m = found.len() as int;
    let n = owners.len() as int;
    assert forall|i: int| 0 <= i < m implies found[i] == addresses[i] by {
        assert(address::project_address(ctx.round_key, owners[i]) == Some(found[i]));
    }
    lemma_fault_by_prefix(ctx.projects@, found, addresses, m);
    if first_fault(ctx.projects@, addresses, m) is Some {
        lemma_fault_stays(ctx.projects@, addresses, m, n);
    }
    if meets_missing_address(ctx, now) {
        let i = choose|i: int|
            {
                &&& 0 <= i < owners.len()
                &&& (#[trigger] address::project_address(ctx.round_key, owners[i])) is None
                &&& first_fault(ctx.projects@, addresses, i) is None
            };
        if i < m {
            assert(address::project_address(ctx.round_key, owners[i]) == Some(found[i]));
        }
        if first_fault(ctx.projects@, addresses, m) is Some {
            lemma_fault_stays(ctx.projects@, addresses, m, i);
        }
    } else if m < n {
        assert(address::project_address(ctx.round_key, owners[m]) is None);
    }
}

/// Each account is where its project has its address just where the derived
/// addresses say so, unless a project without one is met.
proof fn lemma_accounts_at_their_addresses(ctx: FinalizeRound, now: i64)
    requires
        round_refusal(ctx, now) is None ==> ctx.round.well_formed(),
    ensures
        !meets_missing_address(ctx, now) && finalize_refusal(
            ctx,
            address::project_addresses(ctx.round_key, ctx.round),
            now,
        ) is None <==> {
            &&& !ctx.round.finalized
            &&& now > ctx.round.deadline_unix
            &&& ctx.projects@.len() == ctx.round.project_count
            &&& forall|i: int|
                0 <= i < ctx.projects@.len() ==> (#[trigger] ctx.projects@[i]).project is Some
                    && address::project_address(ctx.round_key, ctx.round.project_owners[i]) == Some(
                    ctx.projects@[i].key@,
                )
            &&& sums::sum(
                ctx.projects@,
                |a: ProjectAccount| (a.project->0.sqrt_sum * a.project->0.sqrt_sum) as int,
            ) <= u128::MAX
        },
{
    let places = address::project_addresses(ctx.round_key, ctx.round);
    law_finalizing_is_accepted_exactly(ctx, places, now);
    if round_refusal(ctx, now) is None {
        let owners = ctx.round.owners();
        let n = ctx.projects@.len() as int;
        assert forall|i: int| 0 <= i < n implies owners[i] == #[trigger] ctx.round.project_owners[i]
            && (address::project_address(ctx.round_key, owners[i]) is Some ==> places[i]
            == address::project_address(ctx.round_key, owners[i])->0) by {}
        if finalize_refusal(ctx, places, now) is None && !meets_missing_address(ctx, now) {
            assert forall|i: int| 0 <= i < n implies address::project_address(
                ctx.round_key,
                #[trigger] ctx.round.project_owners[i],
            ) is Some by {
                if address::project_address(ctx.round_key, owners[i]) is None {
                    lemma_fault_stays_away(ctx.projects@, places, i, n);
                }
            }
            assert forall|i: int| 0 <= i < n implies address::project_address(
                ctx.round_key,
                ctx.round.project_owners[i],
            ) == Some((#[trigger] ctx.projects@[i]).key@) by {
                assert(owners[i] == ctx.round.project_owners[i]);
            }
        }
        if forall|i: int|
            0 <= i < n ==> address::project_address(ctx.round_key, ctx.round.project_owners[i])
                == Some((#[trigger] ctx.projects@[i]).key@) {
            assert forall|i: int| 0 <= i < n implies (#[trigger] ctx.projects@[i]).key@ == places[i]
                && address::project_address(ctx.round_key, owners[i]) is Some by {
                assert(owners[i] == ctx.round.project_owners[i]);
            }
            assert forall|i: int| 0 <= i < n implies (#[trigger] address::project_address(
                ctx.round_key,
                owners[i],
            )) is Some by {
                assert(ctx.projects@[i].key@ == places[i]);
            }
        }
    }
}

/// Where no account before `m` is at fault, none before a smaller `n` is.
proof fn lemma_fault_stays_away(
    accounts: Seq<ProjectAccount>,
    addresses: Seq<Seq<u8>>,
    n: int,
    m: int,
)
    requires
        n <= m,
        first_fault(accounts, addresses, m) is None,
    ensures
        first_fault(accounts, addresses, n) is None,
{
    if first_fault(accounts, addresses, n) is Some {
        lemma_fault_stays(accounts, addresses, n, m);
    }
}

/// The accounts are gone through in order up to the first that is at fault, and a
/// project that has no address is met just where it is among those: where the
/// round can be finalized, and each account before the place of that project is
/// at its address, holds a project, and their squares fit in a total.
pub proof fn law_missing_address_is_met_in_order(ctx: FinalizeRound, now: i64)
    requires
        ctx.round.well_formed(),
    ensures
        meets_missing_address(ctx, now) <==> {
            &&& !ctx.round.finalized
            &&& now > ctx.round.deadline_unix
            &&& ctx.projects@.len() == ctx.round.project_count
            &&& exists|i: int|
                {
                    &&& 0 <= i < ctx.projects@.len()
                    &&& address::project_address(
                        ctx.round_key,
                        #[trigger] ctx.round.project_owners[i],
                    ) is None
                    &&& forall|j: int|
                        0 <= j < i ==> (#[trigger] ctx.projects@[j]).project is Some
                            && address::project_address(ctx.round_key, ctx.round.project_owners[j])
                            == Some(ctx.projects@[j].key@)
                    &&& sums::sum(
                        ctx.projects@.take(i),
                        |a: ProjectAccount| (a.project->0.sqrt_sum * a.project->0.sqrt_sum) as int,
                    ) <= u128::MAX
                }
        },
{
    let places = address::project_addresses(ctx.round_key, ctx.round);
    let owners = ctx.round.owners();
    if round_refusal(ctx, now) is None {
        let n = ctx.projects@.len() as int;
        assert forall|i: int| 0 <= i < n implies owners[i] == #[trigger] ctx.round.project_owners[i]
            && (address::project_address(ctx.round_key, owners[i]) is Some ==> places[i]
            == address::project_address(ctx.round_key, owners[i])->0) by {}
        if meets_missing_address(ctx, now) {
            let k = choose|i: int|
                {
                    &&& 0 <= i < owners.len()
                    &&& (#[trigger] address::project_address(ctx.round_key, owners[i])) is None
                    &&& first_fault(ctx.projects@, places, i) is None
                };
            let i = lemma_first_without_address(ctx, k);
            lemma_fault_stays_away(ctx.projects@, places, i, k);
            lemma_no_fault(ctx.projects@, places, i);
            lemma_total_of_squares(ctx.projects@, i);
            assert(address::project_address(ctx.round_key, ctx.round.project_owners[i]) is None);
            assert forall|j: int| 0 <= j < i implies (#[trigger] ctx.projects@[j]).project is Some
                && address::project_address(ctx.round_key, ctx.round.project_owners[j]) == Some(
                ctx.projects@[j].key@,
            ) by {
                assert(owners[j] == ctx.round.project_owners[j]);
            }
        }
        if exists|i: int|
            {
                &&& 0 <= i < n
                &&& address::project_address(
                    ctx.round_key,
                    #[trigger] ctx.round.project_owners[i],
                ) is None
                &&& forall|j: int|
                    0 <= j < i ==> (#[trigger] ctx.projects@[j]).project is Some
                        && address::project_address(ctx.round_key, ctx.round.project_owners[j])
                        == Some(ctx.projects@[j].key@)
                &&& sums::sum(
                    ctx.projects@.take(i),
                    |a: ProjectAccount| (a.project->0.sqrt_sum * a.project->0.sqrt_sum) as int,
                ) <= u128::MAX
            } {
            let i = choose|i: int|
                {
                    &&& 0 <= i < n
                    &&& address::project_address(
                        ctx.round_key,
                        #[trigger] ctx.round.project_owners[i],
                    ) is None
                    &&& forall|j: int|
                        0 <= j < i ==> (#[trigger] ctx.projects@[j]).project is Some
                            && address::project_address(ctx.round_key, ctx.round.project_owners[j])
                            == Some(ctx.projects@[j].key@)
                    &&& sums::sum(
                        ctx.projects@.take(i),
                        |a: ProjectAccount| (a.project->0.sqrt_sum * a.project->0.sqrt_sum) as int,
                    ) <= u128::MAX
                };
            lemma_total_of_squares(ctx.projects@, i);
            assert forall|j: int| 0 <= j < i implies (#[trigger] ctx.projects@[j]).key@ == places[j]
                && ctx.projects@[j].project is Some by {
                assert(owners[j] == ctx.round.project_owners[j]);
            }
            lemma_no_fault(ctx.projects@, places, i);
            assert(address::project_address(ctx.round_key, owners[i]) is None);
        }
    }
}

/// The first place up to `k` whose project has no address.
proof fn lemma_first_without_address(ctx: FinalizeRound, k: int) -> (i: int)
    requires
        0 <= k < ctx.round.owners().len(),
        address::project_address(ctx.round_key, ctx.round.owners()[k]) is None,
    ensures
        0 <= i <= k,
        address::project_address(ctx.round_key, ctx.round.owners()[i]) is None,
        forall|j: int|
            0 <= j < i ==> address::project_address(
                ctx.round_key,
                #[trigger] ctx.round.owners()[j],
            ) is Some,
    decreases k,
{
    if exists|j: int|
        0 <= j < k && address::project_address(
            ctx.round_key,
            #[trigger] ctx.round.owners()[j],
        ) is None {
        let j = choose|j: int|
            0 <= j < k && address::project_address(
                ctx.round_key,
                #[trigger] ctx.round.owners()[j],
            ) is None;
        lemma_first_without_address(ctx, j)
    } else {
        k
    }
}

/// Finalizes a round: writes down the score of each project and their total.
/// The accounts must be those of the registered projects, in order of
/// registration. Anyone may call it, once the deadline has passed. A refused
/// call changes nothing.
///
/// A project is registered at its address, so every registered project has one;
/// where that is not known, use [`try_finalize_round`].
pub fn finalize_round(ctx: &mut FinalizeRound, now: i64) -> (r: Result<(), FinalizeError>)
    requires
        round_refusal(*old(ctx), now) is None ==> old(ctx).round.well_formed(),
        !meets_missing_address(*old(ctx), now),
    ensures
        match finalize_refusal(
            *old(ctx),
            address::project_addresses(old(ctx).round_key, old(ctx).round),
            now,
        ) {
            Some(e) => r == Err::<(), FinalizeError>(e) && *final(ctx) == *old(ctx),
            None => r is Ok && is_finalized_from(*old(ctx), *final(ctx)),
        },
        r is Ok <==> {
            &&& !old(ctx).round.finalized
            &&& now > old(ctx).round.deadline_unix
            &&& old(ctx).projects@.len() == old(ctx).round.project_count
            &&& forall|i: int|
                0 <= i < old(ctx).projects@.len() ==> (#[trigger] old(ctx).projects@[i]).project is Some
                    && address::project_address(
                    old(ctx).round_key,
                    old(ctx).round.project_owners[i],
                ) == Some(old(ctx).projects@[i].key@)
            &&& sums::sum(
                old(ctx).projects@,
                |a: ProjectAccount| (a.project->0.sqrt_sum * a.project->0.sqrt_sum) as int,
            ) <= u128::MAX
        },
        r is Err ==> *final(ctx) == *old(ctx),
        r is Ok ==> {
            &&& final(ctx).round_key == old(ctx).round_key
            &&& final(ctx).round == (Round {
                total_qf_score: final(ctx).round.total_qf_score,
                finalized: true,
                ..old(ctx).round
            })
            &&& final(ctx).round.total_qf_score == sums::sum(
                old(ctx).projects@,
                |a: ProjectAccount| (a.project->0.sqrt_sum * a.project->0.sqrt_sum) as int,
            )
            &&& final(ctx).projects@.len() == old(ctx).projects@.len()
            &&& forall|i: int|
                0 <= i < old(ctx).projects@.len() ==> {
                    let p = old(ctx).projects@[i].project->0;
                    let q = (#[trigger] final(ctx).projects@[i]).project->0;
                    &&& old(ctx).projects@[i].project is Some
                    &&& final(ctx).projects@[i].project is Some
                    &&& final(ctx).projects@[i].key == old(ctx).projects@[i].key
                    &&& q.qf_score == p.sqrt_sum * p.sqrt_sum
                    &&& q == (Project { qf_score: q.qf_score, ..p })
                }
        },
{
    let ghost before = *ctx;
    let ghost places = address::project_addresses(before.round_key, before.round);
    proof {
        lemma_accounts_at_their_addresses(before, now);
    }
    match check_round(ctx, now) {
        Ok(()) => {},
        Err(e) => return Err(e),
    }
    let found = derive_project_pdas(&ctx.round_key, &ctx.round);
    proof {
        lemma_derived_prefix(*ctx, now, address::key_bytes(found@));
    }
    let total: u128 = match add_scores(&ctx.projects, &found) {
        Ok(v) => v,
        Err(e) => return Err(e),
    };
    close_round(ctx, total);
    proof {
        law_finalizing_is_accepted_exactly(before, places, now);
        law_finalizing_squares_the_sums(before, *ctx);
    }
    Ok(())
}

/// Finalizes a round as [`finalize_round`] does, or returns `None` and changes
/// nothing where it gets to a project that has no address.
pub fn try_finalize_round(ctx: &mut FinalizeRound, now: i64) -> (r: Option<
    Result<(), FinalizeError>,
>)
    requires
        round_refusal(*old(ctx), now) is None ==> old(ctx).round.well_formed(),
    ensures
        r is None <==> meets_missing_address(*old(ctx), now),
        r is None ==> *final(ctx) == *old(ctx),
        r is Some ==> match finalize_refusal(
            *old(ctx),
            address::project_addresses(old(ctx).round_key, old(ctx).round),
            now,
        ) {
            Some(e) => r->0 == Err::<(), FinalizeError>(e) && *final(ctx) == *old(ctx),
            None => r->0 is Ok && is_finalized_from(*old(ctx), *final(ctx)),
        },
        r is Some && r->0 is Ok <==> {
            &&& !old(ctx).round.finalized
            &&& now > old(ctx).round.deadline_unix
            &&& old(ctx).projects@.len() == old(ctx).round.project_count
            &&& forall|i: int|
                0 <= i < old(ctx).projects@.len() ==> (#[trigger] old(ctx).projects@[i]).project is Some
                    && address::project_address(
                    old(ctx).round_key,
                    old(ctx).round.project_owners[i],
                ) == Some(old(ctx).projects@[i].key@)
            &&& sums::sum(
                old(ctx).projects@,
                |a: ProjectAccount| (a.project->0.sqrt_sum * a.project->0.sqrt_sum) as int,
            ) <= u128::MAX
        },
        !(r is Some && r->0 is Ok) ==> *final(ctx) == *old(ctx),
        r is Some && r->0 is Ok ==> {
            &&& final(ctx).round_key == old(ctx).round_key
            &&& final(ctx).round == (Round {
                total_qf_score: final(ctx).round.total_qf_score,
                finalized: true,
                ..old(ctx).round
            })
            &&& final(ctx).round.total_qf_score == sums::sum(
                old(ctx).projects@,
                |a: ProjectAccount| (a.project->0.sqrt_sum * a.project->0.sqrt_sum) as int,
            )
            &&& final(ctx).projects@.len() == old(ctx).projects@.len()
            &&& forall|i: int|
                0 <= i < old(ctx).projects@.len() ==> {
                    let p = old(ctx).projects@[i].project->0;
                    let q = (#[trigger] final(ctx).projects@[i]).project->0;
                    &&& old(ctx).projects@[i].project is Some
                    &&& final(ctx).projects@[i].project is Some
                    &&& final(ctx).projects@[i].key == old(ctx).projects@[i].key
                    &&& q.qf_score == p.sqrt_sum * p.sqrt_sum
                    &&& q == (Project { qf_score: q.qf_score, ..p })
                }
        },
{
    proof {
        lemma_accounts_at_their_addresses(*ctx, now);
    }
    match check_round(ctx, now) {
        Ok(()) => {},
        Err(e) => return Some(Err(e)),
    }
    let found = derive_project_pdas(&ctx.round_key, &ctx.round);
    proof {
        lemma_derived_prefix(*ctx, now, address::key_bytes(found@));
    }
    if found.len() < ctx.round.project_count as usize {
        return match add_scores(&ctx.projects, &found) {
            Ok(_) => None,
            Err(e) => Some(Err(e)),
        };
    }
    Some(finalize_round(ctx, now))
}

} // verus!
