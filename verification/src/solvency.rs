//! Why a round can always pay.
//!
//! The account of a round holds the donations and the pool together. The laws
//! here follow a round through all of its instructions: what its account has
//! above the minimum that it must keep covers, at any time, what it owes.
use vstd::prelude::*;
use crate::accounts::{
    ClaimPayout, Donate, FinalizeRound, FundMatchingPool, RegisterProject,
};
use crate::claim;
use crate::create;
use crate::donate;
use crate::error::QfError;
use crate::finalize;
use crate::fund;
use crate::key::Pubkey;
use crate::register;
use crate::state::{Project, Round};
use crate::sums;

verus! {

/// All that the projects were given.
pub open spec fn donations(projects: Seq<Project>) -> int {
    sums::sum(projects, |p: Project| p.total_donated as int)
}

/// What is still to be paid to the project, once the round is finalized.
pub open spec fn debt(round: Round, project: Project) -> int {
    if project.claimed {
        0
    } else {
        claim::payout(round, project)
    }
}

/// What the round owes: before it is finalized, the pool and all donations;
/// afterwards, the payouts that were not claimed yet.
pub open spec fn owed(round: Round, projects: Seq<Project>) -> int {
    if round.finalized {
        sums::sum(projects, |p: Project| debt(round, p))
    } else {
        round.matching_pool_total + donations(projects)
    }
}

/// The projects are those of the round, in order of registration. Before the
/// round is finalized none is paid; afterwards each has its score, and the round
/// their total.
pub open spec fn is_sound(round_key: Pubkey, round: Round, projects: Seq<Project>) -> bool {
    &&& round.well_formed()
    &&& round.project_count == projects.len()
    &&& forall|i: int|
        0 <= i < projects.len() ==> (#[trigger] projects[i]).owner == round.owners()[i]
            && projects[i].round == round_key
    &&& !round.finalized ==> forall|i: int|
        0 <= i < projects.len() ==> !(#[trigger] projects[i]).claimed
    &&& round.finalized ==> forall|i: int|
        0 <= i < projects.len() ==> (#[trigger] projects[i]).qf_score == finalize::score(
            projects[i],
        )
    &&& round.finalized ==> round.total_qf_score == finalize::total_score(projects)
}

/// The round is sound, and `lamports`, which its account has above the minimum
/// that it must keep, cover what it owes.
pub open spec fn is_solvent(
    round_key: Pubkey,
    round: Round,
    projects: Seq<Project>,
    lamports: int,
) -> bool {
    is_sound(round_key, round, projects) && owed(round, projects) <= lamports
}

/// A round that was just started owes nothing.
pub proof fn law_new_round_is_solvent(
    round_key: Pubkey,
    creator: Pubkey,
    round_id: u64,
    deadline_unix: i64,
    bump: u8,
    lamports: int,
)
    requires
        lamports >= 0,
    ensures
        is_solvent(
            round_key,
            create::new_round(creator, round_id, deadline_unix, bump),
            Seq::<Project>::empty(),
            lamports,
        ),
{
}

/// Registering a project keeps a round solvent.
pub proof fn law_registering_keeps_round_solvent(
    ctx: RegisterProject,
    name: String,
    now: i64,
    projects: Seq<Project>,
    lamports: int,
)
    requires
        is_solvent(ctx.round_key, ctx.round, projects, lamports),
        register::registration_refusal(ctx, name@, now) is None,
    ensures
        is_solvent(
            ctx.round_key,
            register::with_project(ctx.round, ctx.owner),
            projects.push(register::new_project(ctx.round_key, ctx.owner, name, ctx.bump)),
            lamports,
        ),
{
    let round = register::with_project(ctx.round, ctx.owner);
    let project = register::new_project(ctx.round_key, ctx.owner, name, ctx.bump);
    let after = projects.push(project);
    sums::lemma_sum_push(projects, project, |p: Project| p.total_donated as int);
    assert(round.owners() =~= ctx.round.owners().push(ctx.owner));
    assert forall|i: int| 0 <= i < after.len() implies (#[trigger] after[i]).owner
        == round.owners()[i] && after[i].round == ctx.round_key && !after[i].claimed by {
        if i < projects.len() {
            assert(after[i] == projects[i]);
        }
    }
}

/// Adding to the pool keeps a round solvent.
pub proof fn law_funding_keeps_round_solvent(
    ctx: FundMatchingPool,
    amount: u64,
    projects: Seq<Project>,
    lamports: int,
)
    requires
        is_solvent(ctx.round_key, ctx.round, projects, lamports),
        fund::funding_refusal(ctx, amount) is None,
    ensures
        is_solvent(
            ctx.round_key,
            fund::funded(ctx.round, amount),
            projects,
            lamports + fund::funding_transfer(ctx, amount).lamports,
        ),
{
    assert(fund::funded(ctx.round, amount).owners() =~= ctx.round.owners());
}

/// Donating to a project keeps its round solvent.
pub proof fn law_donating_keeps_round_solvent(
    ctx: Donate,
    amount: u64,
    now: i64,
    projects: Seq<Project>,
    i: int,
    lamports: int,
)
    requires
        is_solvent(ctx.round_key, ctx.round, projects, lamports),
        0 <= i < projects.len(),
        projects[i] == ctx.project,
        donate::donation_refusal(ctx, amount, now) is None,
    ensures
        is_solvent(
            ctx.round_key,
            ctx.round,
            projects.update(i, donate::project_after(ctx, amount)),
            lamports + donate::donation_transfer(ctx, amount).lamports,
        ),
{
    let project = donate::project_after(ctx, amount);
    let after = projects.update(i, project);
    sums::lemma_sum_update(projects, i, project, |p: Project| p.total_donated as int);
    assert forall|k: int| 0 <= k < after.len() implies (#[trigger] after[k]).owner
        == ctx.round.owners()[k] && after[k].round == ctx.round_key && !after[k].claimed by {
        if k != i {
            assert(after[k] == projects[k]);
        } else {
            assert(after[k].owner == projects[i].owner);
            assert(!projects[i].claimed);
        }
    }
}

/// The shares of some projects, taken together, are at most the part of the pool
/// that their scores make up.
proof fn lemma_shares_of_scores(round: Round, projects: Seq<Project>)
    requires
        round.total_qf_score > 0,
        forall|i: int|
            0 <= i < projects.len() ==> (#[trigger] projects[i]).qf_score == finalize::score(
                projects[i],
            ),
    ensures
        sums::sum(projects, |p: Project| claim::match_share(round, p)) * round.total_qf_score
            <= round.matching_pool_total * finalize::total_score(projects),
    decreases projects.len(),
{
    let f = |p: Project| claim::match_share(round, p);
    if projects.len() == 0 {
        assert(0 * round.total_qf_score == 0);
        assert(round.matching_pool_total * 0 == 0);
    } else {
        let rest = projects.drop_last();
        let last = projects.last();
        assert forall|i: int| 0 <= i < rest.len() implies (#[trigger] rest[i]).qf_score
            == finalize::score(rest[i]) by {
            assert(rest[i] == projects[i]);
        }
        lemma_shares_of_scores(round, rest);
        assert(projects[projects.len() - 1].qf_score == finalize::score(last));
        let pool = round.matching_pool_total as int;
        let total = round.total_qf_score as int;
        let q = last.qf_score as int;
        let share = claim::match_share(round, last);
        assert(share * total <= pool * q) by (nonlinear_arith)
            requires
                share == (pool * q) / total,
                total > 0,
        ;
        let a = sums::sum(rest, f);
        let b = finalize::total_score(rest);
        assert((a + share) * total == a * total + share * total) by (nonlinear_arith);
        assert(pool * (b + q) == pool * b + pool * q) by (nonlinear_arith);
    }
}

/// The shares of all projects of a finalized round, taken together, stay within
/// the pool.
pub proof fn law_shares_stay_within_pool(round_key: Pubkey, round: Round, projects: Seq<Project>)
    requires
        is_sound(round_key, round, projects),
        round.finalized,
    ensures
        sums::sum(projects, |p: Project| claim::match_share(round, p))
            <= round.matching_pool_total,
{
    let shares = sums::sum(projects, |p: Project| claim::match_share(round, p));
    let total = round.total_qf_score as int;
    let pool = round.matching_pool_total as int;
    if total == 0 {
        assert forall|i: int| 0 <= i < projects.len() implies (|p: Project|
            claim::match_share(round, p))(#[trigger] projects[i]) == 0 by {}
        sums::lemma_sum_constant(projects, |p: Project| claim::match_share(round, p), 0);
        assert(projects.len() * 0 == 0);
    } else {
        lemma_shares_of_scores(round, projects);
        assert(shares <= pool) by (nonlinear_arith)
            requires
                shares * total <= pool * total,
                total > 0,
        ;
    }
}

/// The shares of some projects, taken together, fall short of the part of the
/// pool that their scores make up by at most one lamport for each project.
proof fn lemma_shares_fall_short(round: Round, projects: Seq<Project>)
    requires
        round.total_qf_score > 0,
        forall|i: int|
            0 <= i < projects.len() ==> (#[trigger] projects[i]).qf_score == finalize::score(
                projects[i],
            ),
    ensures
        (sums::sum(projects, |p: Project| claim::match_share(round, p)) + projects.len())
            * round.total_qf_score >= round.matching_pool_total * finalize::total_score(projects)
            + projects.len(),
    decreases projects.len(),
{
    let f = |p: Project| claim::match_share(round, p);
    if projects.len() == 0 {
        assert((sums::sum(projects, f) + projects.len()) == 0);
        assert(0 * round.total_qf_score == 0);
        assert(round.matching_pool_total * 0 == 0);
    } else {
        let rest = projects.drop_last();
        let last = projects.last();
        assert forall|i: int| 0 <= i < rest.len() implies (#[trigger] rest[i]).qf_score
            == finalize::score(rest[i]) by {
            assert(rest[i] == projects[i]);
        }
        lemma_shares_fall_short(round, rest);
        assert(projects[projects.len() - 1].qf_score == finalize::score(last));
        let pool = round.matching_pool_total as int;
        let total = round.total_qf_score as int;
        let q = last.qf_score as int;
        let share = claim::match_share(round, last);
        assert((share + 1) * total >= pool * q + 1) by (nonlinear_arith)
            requires
                share == (pool * q) / total,
                total > 0,
        ;
        let a = sums::sum(rest, f) + rest.len();
        let b = finalize::total_score(rest);
        assert((a + (share + 1)) * total == a * total + (share + 1) * total) by (nonlinear_arith);
        assert(pool * (b + q) == pool * b + pool * q) by (nonlinear_arith);
    }
}

/// Where a project scored, the pool is paid out: rounding leaves less than one
/// lamport for each project.
pub proof fn law_pool_is_paid_out(round_key: Pubkey, round: Round, projects: Seq<Project>)
    requires
        is_sound(round_key, round, projects),
        round.finalized,
        round.total_qf_score > 0,
    ensures
        round.matching_pool_total - sums::sum(projects, |p: Project| claim::match_share(round, p))
            < projects.len(),
{
    let shares = sums::sum(projects, |p: Project| claim::match_share(round, p));
    let total = round.total_qf_score as int;
    let pool = round.matching_pool_total as int;
    let n = projects.len() as int;
    lemma_shares_fall_short(round, projects);
    assert(n > 0);
    assert(pool - shares < n) by (nonlinear_arith)
        requires
            (shares + n) * total >= pool * total + n,
            total > 0,
            n > 0,
    ;
}

/// Of two projects, the one with the higher score does not get the smaller
/// share.
pub proof fn law_higher_score_gets_no_less(round: Round, low: Project, high: Project)
    requires
        low.qf_score <= high.qf_score,
    ensures
        claim::match_share(round, low) <= claim::match_share(round, high),
{
    let pool = round.matching_pool_total as int;
    let total = round.total_qf_score as int;
    let (a, b) = (low.qf_score as int, high.qf_score as int);
    if total > 0 {
        assert((pool * a) / total <= (pool * b) / total) by (nonlinear_arith)
            requires
                pool >= 0,
                0 <= a <= b,
                total > 0,
        ;
    }
}

/// No share exceeds the pool.
pub proof fn law_share_is_at_most_pool(
    round_key: Pubkey,
    round: Round,
    projects: Seq<Project>,
    i: int,
)
    requires
        is_sound(round_key, round, projects),
        round.finalized,
        0 <= i < projects.len(),
    ensures
        0 <= claim::match_share(round, projects[i]) <= round.matching_pool_total,
{
    let f = |p: Project| claim::match_share(round, p);
    assert forall|k: int| 0 <= k < projects.len() implies f(#[trigger] projects[k]) >= 0 by {
        lemma_share_not_negative(round, projects[k]);
    }
    sums::lemma_sum_covers(projects, f);
    law_shares_stay_within_pool(round_key, round, projects);
    assert(f(projects[i]) <= sums::sum(projects, f));
}

/// A share is not negative.
proof fn lemma_share_not_negative(round: Round, project: Project)
    ensures
        claim::match_share(round, project) >= 0,
{
    let pool = round.matching_pool_total as int;
    let q = project.qf_score as int;
    let total = round.total_qf_score as int;
    if total > 0 {
        assert((pool * q) / total >= 0) by (nonlinear_arith)
            requires
                pool >= 0,
                q >= 0,
                total > 0,
        ;
    }
}

/// What a round owes once it is finalized is covered by the pool and the
/// donations.
proof fn lemma_finalized_round_is_solvent(
    round_key: Pubkey,
    round: Round,
    projects: Seq<Project>,
    lamports: int,
)
    requires
        is_solvent(round_key, round, projects, lamports),
        !round.finalized,
        finalize::total_score(projects) <= u128::MAX,
    ensures
        is_solvent(
            round_key,
            finalize::finalized(round, projects),
            projects.map_values(|p: Project| finalize::scored(p)),
            lamports,
        ),
{
    let after = finalize::finalized(round, projects);
    let scored = projects.map_values(|p: Project| finalize::scored(p));
    let score = |p: Project| finalize::score(p) as int;
    assert(after.owners() =~= round.owners());
    sums::lemma_sum_covers(projects, score);
    sums::lemma_sum_same(projects, scored, score, score);
    assert forall|i: int| 0 <= i < scored.len() implies (#[trigger] scored[i]).qf_score
        == finalize::score(scored[i]) && scored[i].owner == after.owners()[i] && scored[i].round
        == round_key && !scored[i].claimed by {
        assert(score(projects[i]) <= finalize::total_score(projects));
        assert(projects[i].owner == round.owners()[i]);
        assert(!projects[i].claimed);
    }
    assert(is_sound(round_key, after, scored));
    law_shares_stay_within_pool(round_key, after, scored);
    sums::lemma_sum_same(
        projects,
        scored,
        |p: Project| p.total_donated as int,
        |p: Project| p.total_donated as int,
    );
    lemma_debts_are_donations_and_shares(after, scored);
}

/// Finalizing keeps a round solvent.
pub proof fn law_finalizing_keeps_round_solvent(
    before: FinalizeRound,
    after: FinalizeRound,
    addresses: Seq<Seq<u8>>,
    now: i64,
    lamports: int,
)
    requires
        is_solvent(
            before.round_key,
            before.round,
            finalize::projects_of(before.projects@),
            lamports,
        ),
        finalize::finalize_refusal(before, addresses, now) is None,
        finalize::is_finalized_from(before, after),
    ensures
        is_solvent(
            after.round_key,
            after.round,
            finalize::projects_of(after.projects@),
            lamports,
        ),
{
    finalize::law_finalizing_needs_the_right_accounts(before, addresses, now);
    let projects = finalize::projects_of(before.projects@);
    lemma_finalized_round_is_solvent(before.round_key, before.round, projects, lamports);
    assert(finalize::projects_of(after.projects@) =~= projects.map_values(
        |p: Project| finalize::scored(p),
    ));
}

/// Where nothing was claimed, what is owed is what was given and the shares.
proof fn lemma_debts_are_donations_and_shares(round: Round, projects: Seq<Project>)
    requires
        forall|i: int| 0 <= i < projects.len() ==> !(#[trigger] projects[i]).claimed,
    ensures
        sums::sum(projects, |p: Project| debt(round, p)) == donations(projects) + sums::sum(
            projects,
            |p: Project| claim::match_share(round, p),
        ),
    decreases projects.len(),
{
    if projects.len() > 0 {
        let rest = projects.drop_last();
        assert forall|i: int| 0 <= i < rest.len() implies !(#[trigger] rest[i]).claimed by {
            assert(rest[i] == projects[i]);
        }
        lemma_debts_are_donations_and_shares(round, rest);
        assert(!projects[projects.len() - 1].claimed);
    }
}

/// A solvent round pays every project: a claim is never refused for want of
/// funds, and once it is paid the round is still solvent. After the round is
/// finalized, the owner of a project that was not paid yet is paid, unless the
/// product of pool and score is too large to compute the share from.
pub proof fn law_solvent_round_pays(
    ctx: ClaimPayout,
    rent_exempt_minimum: u64,
    projects: Seq<Project>,
    i: int,
)
    requires
        is_solvent(
            ctx.round_key,
            ctx.round,
            projects,
            ctx.round_lamports - rent_exempt_minimum,
        ),
        0 <= i < projects.len(),
        projects[i] == ctx.project,
    ensures
        claim::claim_refusal(ctx, rent_exempt_minimum) != Some(QfError::InsufficientFunds),
        claim::claim_refusal(ctx, rent_exempt_minimum) is None <==> {
            &&& ctx.round.finalized
            &&& ctx.owner == ctx.project.owner
            &&& !ctx.project.claimed
            &&& ctx.round.matching_pool_total * ctx.project.qf_score <= u128::MAX
        },
        claim::claim_refusal(ctx, rent_exempt_minimum) is None ==> is_solvent(
            ctx.round_key,
            ctx.round,
            projects.update(i, claim::claimed(ctx).project),
            claim::claimed(ctx).round_lamports - rent_exempt_minimum,
        ),
{
    let round = ctx.round;
    let f = |p: Project| debt(round, p);
    assert forall|k: int| 0 <= k < projects.len() implies f(#[trigger] projects[k]) >= 0 by {
        lemma_share_not_negative(round, projects[k]);
    }
    sums::lemma_sum_covers(projects, f);
    assert(round.finalized ==> f(projects[i]) <= owed(round, projects));
    if round.finalized && round.total_qf_score == 0 {
        let score = |p: Project| finalize::score(p) as int;
        sums::lemma_sum_covers(projects, score);
        assert(score(projects[i]) <= finalize::total_score(projects));
        assert(projects[i].qf_score == 0);
        assert(round.matching_pool_total * 0 == 0);
    }
    if claim::claim_refusal(ctx, rent_exempt_minimum) is None {
        let paid = claim::claimed(ctx).project;
        let after = projects.update(i, paid);
        sums::lemma_sum_update(projects, i, paid, f);
        sums::lemma_sum_update(projects, i, paid, |p: Project| finalize::score(p) as int);
        assert forall|k: int| 0 <= k < after.len() implies (#[trigger] after[k]).owner
            == round.owners()[k] && after[k].round == ctx.round_key && after[k].qf_score
            == finalize::score(after[k]) by {
            if k != i {
                assert(after[k] == projects[k]);
            } else {
                assert(projects[i].qf_score == finalize::score(projects[i]));
                assert(projects[i].owner == round.owners()[i]);
            }
        }
    }
}

} // verus!
