//! Paying a project out.
use vstd::prelude::*;
use crate::accounts::ClaimPayout;
use crate::error::QfError;
use crate::state::{Project, Round};

verus! {

/// The share of the pool that goes to the project: in proportion to its score,
/// rounded down. Nothing where no project scored.
pub open spec fn match_share(round: Round, project: Project) -> int {
    if round.total_qf_score == 0 {
        0
    } else {
        (round.matching_pool_total * project.qf_score) / (round.total_qf_score as int)
    }
}

/// What the project is paid: what it was given, and its share of the pool.
pub open spec fn payout(round: Round, project: Project) -> int {
    project.total_donated + match_share(round, project)
}

/// One of the figures on the way to the payout does not fit.
pub open spec fn payout_overflows(round: Round, project: Project) -> bool {
    ||| round.total_qf_score != 0 && round.matching_pool_total * project.qf_score > u128::MAX
    ||| payout(round, project) > u64::MAX
}

/// What the account of the round can pay: what it has above what it must keep.
pub open spec fn available(round_lamports: u64, rent_exempt_minimum: u64) -> int {
    if round_lamports >= rent_exempt_minimum {
        round_lamports - rent_exempt_minimum
    } else {
        0
    }
}

/// Why a claim is refused, if it is.
pub open spec fn claim_refusal(ctx: ClaimPayout, rent_exempt_minimum: u64) -> Option<QfError> {
    if ctx.project.owner != ctx.owner || ctx.project.round != ctx.round_key {
        Some(QfError::InvalidProjectAccount)
    } else if !ctx.round.finalized {
        Some(QfError::RoundNotFinalized)
    } else if ctx.project.claimed {
        Some(QfError::AlreadyClaimed)
    } else if payout_overflows(ctx.round, ctx.project) {
        Some(QfError::MathOverflow)
    } else if payout(ctx.round, ctx.project) > available(ctx.round_lamports, rent_exempt_minimum) {
        Some(QfError::InsufficientFunds)
    } else {
        None
    }
}

/// The accounts after the claim.
pub open spec fn claimed(ctx: ClaimPayout) -> ClaimPayout {
    ClaimPayout {
        owner_lamports: (ctx.owner_lamports + payout(ctx.round, ctx.project)) as u64,
        round_lamports: (ctx.round_lamports - payout(ctx.round, ctx.project)) as u64,
        project: Project { claimed: true, ..ctx.project },
        ..ctx
    }
}

/// Returns the share of the pool that goes to the project, or `None` where it
/// does not fit in 64 bits, or the product that it is taken from in 128.
pub fn match_amount(round: &Round, project: &Project) -> (r: Option<u64>)
    ensures
        r is None <==> (round.total_qf_score != 0 && round.matching_pool_total * project.qf_score
            > u128::MAX) || match_share(*round, *project) > u64::MAX,
        r is Some ==> r->0 == match_share(*round, *project),
        round.total_qf_score == 0 ==> r == Some(0u64),
        r is Some && round.total_qf_score > 0 ==> r->0 * round.total_qf_score
            <= round.matching_pool_total * project.qf_score < (r->0 + 1) * round.total_qf_score,
{
    if round.total_qf_score == 0 {
        return Some(0);
    }
    let pool: u128 = round.matching_pool_total as u128;
    let product: u128 = match pool.checked_mul(project.qf_score) {
        Some(v) => v,
        None => return None,
    };
    let raw: u128 = product / round.total_qf_score;
    proof {
        law_share_is_proportional(*round, *project);
    }
    if raw > u64::MAX as u128 {
        None
    } else {
        Some(raw as u64)
    }
}

/// Checks a claim and returns what it pays.
pub fn claim_amount(ctx: &ClaimPayout, rent_exempt_minimum: u64) -> (r: Result<u64, QfError>)
    ensures
        match claim_refusal(*ctx, rent_exempt_minimum) {
            Some(e) => r == Err::<u64, QfError>(e),
            None => r is Ok && r->Ok_0 == payout(ctx.round, ctx.project),
        },
        r is Ok <==> {
            let pay = ctx.project.total_donated + match_share(ctx.round, ctx.project);
            &&& ctx.project.owner == ctx.owner
            &&& ctx.project.round == ctx.round_key
            &&& ctx.round.finalized
            &&& !ctx.project.claimed
            &&& ctx.round.total_qf_score > 0 ==> ctx.round.matching_pool_total
                * ctx.project.qf_score <= u128::MAX
            &&& pay <= u64::MAX
            &&& pay > 0 ==> pay + rent_exempt_minimum <= ctx.round_lamports
        },
        r is Ok ==> {
            let share = r->Ok_0 - ctx.project.total_donated;
            &&& r->Ok_0 == 0 || r->Ok_0 + rent_exempt_minimum <= ctx.round_lamports
            &&& ctx.round.total_qf_score == 0 ==> share == 0
            &&& ctx.round.total_qf_score > 0 ==> share * ctx.round.total_qf_score
                <= ctx.round.matching_pool_total * ctx.project.qf_score < (share + 1)
                * ctx.round.total_qf_score
        },
{
    proof {
        law_claim_is_accepted_exactly(*ctx, rent_exempt_minimum);
    }
    if ctx.project.owner != ctx.owner {
        return Err(QfError::InvalidProjectAccount);
    }
    if ctx.project.round != ctx.round_key {
        return Err(QfError::InvalidProjectAccount);
    }
    if !ctx.round.finalized {
        return Err(QfError::RoundNotFinalized);
    }
    if ctx.project.claimed {
        return Err(QfError::AlreadyClaimed);
    }
    let share: u64 = match match_amount(&ctx.round, &ctx.project) {
        Some(v) => v,
        None => return Err(QfError::MathOverflow),
    };
    let payout: u64 = match ctx.project.total_donated.checked_add(share) {
        Some(v) => v,
        None => return Err(QfError::MathOverflow),
    };
    let available: u64 = ctx.round_lamports.saturating_sub(rent_exempt_minimum);
    if payout > available {
        return Err(QfError::InsufficientFunds);
    }
    proof {
        law_share_is_proportional(ctx.round, ctx.project);
    }
    Ok(payout)
}

/// Pays a project what it was given and its share of the pool, out of what the
/// account of the round has above `rent_exempt_minimum`. Each project is paid
/// once. A refused claim changes nothing. What is paid must fit in the account
/// of the owner; [`claim_amount`] tells how much it is.
pub fn claim_payout(ctx: &mut ClaimPayout, rent_exempt_minimum: u64) -> (r: Result<(), QfError>)
    requires
        claim_refusal(*old(ctx), rent_exempt_minimum) is None ==> old(ctx).owner_lamports + payout(
            old(ctx).round,
            old(ctx).project,
        ) <= u64::MAX,
    ensures
        match claim_refusal(*old(ctx), rent_exempt_minimum) {
            Some(e) => r == Err::<(), QfError>(e) && *final(ctx) == *old(ctx),
            None => r is Ok && *final(ctx) == claimed(*old(ctx)),
        },
        r is Ok <==> {
            let pay = old(ctx).project.total_donated + match_share(old(ctx).round, old(ctx).project);
            &&& old(ctx).project.owner == old(ctx).owner
            &&& old(ctx).project.round == old(ctx).round_key
            &&& old(ctx).round.finalized
            &&& !old(ctx).project.claimed
            &&& old(ctx).round.total_qf_score > 0 ==> old(ctx).round.matching_pool_total
                * old(ctx).project.qf_score <= u128::MAX
            &&& pay <= u64::MAX
            &&& pay > 0 ==> pay + rent_exempt_minimum <= old(ctx).round_lamports
        },
        r is Err ==> *final(ctx) == *old(ctx),
        r is Ok ==> {
            let paid = final(ctx).owner_lamports - old(ctx).owner_lamports;
            let share = paid - old(ctx).project.total_donated;
            let total = old(ctx).round.total_qf_score;
            &&& old(ctx).round_lamports - final(ctx).round_lamports == paid
            &&& paid == 0 || final(ctx).round_lamports >= rent_exempt_minimum
            &&& total == 0 ==> share == 0
            &&& total > 0 ==> share * total <= old(ctx).round.matching_pool_total
                * old(ctx).project.qf_score < (share + 1) * total
            &&& *final(ctx) == (ClaimPayout {
                owner_lamports: final(ctx).owner_lamports,
                round_lamports: final(ctx).round_lamports,
                project: Project { claimed: true, ..old(ctx).project },
                ..*old(ctx)
            })
        },
{
    let payout: u64 = match claim_amount(ctx, rent_exempt_minimum) {
        Ok(v) => v,
        Err(e) => return Err(e),
    };
    ctx.round_lamports = ctx.round_lamports - payout;
    ctx.owner_lamports = ctx.owner_lamports + payout;
    ctx.project.claimed = true;
    Ok(())
}

/// The share of a project is to the pool as its score is to the total, rounded
/// down to whole lamports. Where nobody scored there are no shares.
pub proof fn law_share_is_proportional(round: Round, project: Project)
    ensures
        round.total_qf_score == 0 ==> match_share(round, project) == 0,
        round.total_qf_score > 0 ==> match_share(round, project) * round.total_qf_score
            <= round.matching_pool_total * project.qf_score < (match_share(round, project) + 1)
            * round.total_qf_score,
        match_share(round, project) >= 0,
{
    let pool = round.matching_pool_total as int;
    let q = project.qf_score as int;
    let total = round.total_qf_score as int;
    if total > 0 {
        let share = (pool * q) / total;
        assert(share * total <= pool * q < (share + 1) * total && share >= 0) by (nonlinear_arith)
            requires
                share == (pool * q) / total,
                total > 0,
                pool >= 0,
                q >= 0,
        ;
    }
}

/// Where the total is the score of one project alone, that project gets the whole
/// pool.
pub proof fn law_only_scorer_gets_the_pool(round: Round, project: Project)
    requires
        round.total_qf_score > 0,
        project.qf_score == round.total_qf_score,
    ensures
        match_share(round, project) == round.matching_pool_total,
{
    law_share_is_proportional(round, project);
    let pool = round.matching_pool_total as int;
    let total = round.total_qf_score as int;
    let share = match_share(round, project);
    assert(share == pool) by (nonlinear_arith)
        requires
            share * total <= pool * total < (share + 1) * total,
            total > 0,
    ;
}

/// A claim is accepted just where the owner claims for a project of the round,
/// the round is finalized, the project was not paid before, its figures do not
/// overflow, and the round has what is to be paid above what it must keep.
/// Otherwise the first of these that does not hold is the reason.
pub proof fn law_claim_is_accepted_exactly(ctx: ClaimPayout, rent_exempt_minimum: u64)
    ensures
        ({
            let foreign = ctx.project.owner != ctx.owner || ctx.project.round != ctx.round_key;
            let pay = ctx.project.total_donated + match_share(ctx.round, ctx.project);
            let over = {
                ||| ctx.round.total_qf_score > 0 && ctx.round.matching_pool_total
                    * ctx.project.qf_score > u128::MAX
                ||| pay > u64::MAX
            };
            let open = !foreign && ctx.round.finalized && !ctx.project.claimed;
            let short = pay > 0 && pay + rent_exempt_minimum > ctx.round_lamports;
            let refusal = claim_refusal(ctx, rent_exempt_minimum);
            &&& refusal is None <==> open && !over && !short
            &&& refusal == Some(QfError::InvalidProjectAccount) <==> foreign
            &&& refusal == Some(QfError::RoundNotFinalized) <==> !foreign && !ctx.round.finalized
            &&& refusal == Some(QfError::AlreadyClaimed) <==> !foreign && ctx.round.finalized
                && ctx.project.claimed
            &&& refusal == Some(QfError::MathOverflow) <==> open && over
            &&& refusal == Some(QfError::InsufficientFunds) <==> open && !over && short
            &&& payout(ctx.round, ctx.project) == pay
        }),
{
    law_share_is_proportional(ctx.round, ctx.project);
}

/// A claim moves what was given and the share from the round to the owner, and
/// marks the project as paid. Nothing else changes.
pub proof fn law_claim_pays_donations_and_share(ctx: ClaimPayout, rent_exempt_minimum: u64)
    requires
        claim_refusal(ctx, rent_exempt_minimum) is None,
        ctx.owner_lamports + ctx.project.total_donated + match_share(ctx.round, ctx.project)
            <= u64::MAX,
    ensures
        ({
            let after = claimed(ctx);
            let pay = ctx.project.total_donated + match_share(ctx.round, ctx.project);
            &&& after.owner_lamports - ctx.owner_lamports == pay
            &&& ctx.round_lamports - after.round_lamports == pay
            &&& after.project.claimed
            &&& after.project.round == ctx.project.round
            &&& after.project.owner == ctx.project.owner
            &&& after.project.name == ctx.project.name
            &&& after.project.total_donated == ctx.project.total_donated
            &&& after.project.sqrt_sum == ctx.project.sqrt_sum
            &&& after.project.donor_count == ctx.project.donor_count
            &&& after.project.qf_score == ctx.project.qf_score
            &&& after.project.bump == ctx.project.bump
            &&& after.owner == ctx.owner
            &&& after.round_key == ctx.round_key
            &&& after.round == ctx.round
        }),
{
    law_share_is_proportional(ctx.round, ctx.project);
}

} // verus!
