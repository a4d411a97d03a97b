//! Adding to the matching pool.
//!
//! The lamports move between the checks and the bookkeeping: [`fund_transfer`]
//! runs the checks and says what to move, and [`fund_matching_pool`] runs them
//! again and books the amount.
use vstd::prelude::*;
use crate::accounts::{FundMatchingPool, Transfer};
use crate::error::QfError;
use crate::state::Round;

verus! {

/// Why an amount is refused before anything is moved, if it is.
pub open spec fn transfer_refusal(ctx: FundMatchingPool, amount: u64) -> Option<QfError> {
    if amount == 0 {
        Some(QfError::InvalidAmount)
    } else if ctx.round.finalized {
        Some(QfError::RoundFinalized)
    } else {
        None
    }
}

/// Why an amount is refused, if it is.
pub open spec fn funding_refusal(ctx: FundMatchingPool, amount: u64) -> Option<QfError> {
    if transfer_refusal(ctx, amount) is Some {
        transfer_refusal(ctx, amount)
    } else if ctx.round.matching_pool_total + amount > u64::MAX {
        Some(QfError::MathOverflow)
    } else {
        None
    }
}

/// The round with `amount` more in its pool.
pub open spec fn funded(round: Round, amount: u64) -> Round {
    Round { matching_pool_total: (round.matching_pool_total + amount) as u64, ..round }
}

/// What adding to the pool moves.
pub open spec fn funding_transfer(ctx: FundMatchingPool, amount: u64) -> Transfer {
    Transfer { from: ctx.sponsor, to: ctx.round_key, lamports: amount }
}

/// Checks an amount for the pool and returns what it moves. The amount may
/// still be refused by [`fund_matching_pool`] where the pool overflows.
pub fn fund_transfer(ctx: &FundMatchingPool, amount: u64) -> (r: Result<Transfer, QfError>)
    ensures
        r == match transfer_refusal(*ctx, amount) {
            Some(e) => Err::<Transfer, QfError>(e),
            None => Ok(funding_transfer(*ctx, amount)),
        },
        r is Ok <==> amount > 0 && !ctx.round.finalized,
        r is Ok ==> r->Ok_0.from == ctx.sponsor && r->Ok_0.to == ctx.round_key
            && r->Ok_0.lamports == amount,
        amount == 0 ==> r == Err::<Transfer, QfError>(QfError::InvalidAmount),
        amount > 0 && ctx.round.finalized ==> r == Err::<Transfer, QfError>(
            QfError::RoundFinalized,
        ),
{
    if amount == 0 {
        return Err(QfError::InvalidAmount);
    }
    if ctx.round.finalized {
        return Err(QfError::RoundFinalized);
    }
    Ok(Transfer { from: ctx.sponsor, to: ctx.round_key, lamports: amount })
}

/// Books `amount` lamports for the matching pool and returns what it moves. A
/// refused amount changes nothing.
pub fn fund_matching_pool(ctx: &mut FundMatchingPool, amount: u64) -> (r: Result<
    Transfer,
    QfError,
>)
    ensures
        match funding_refusal(*old(ctx), amount) {
            Some(e) => r == Err::<Transfer, QfError>(e) && *final(ctx) == *old(ctx),
            None => r == Ok::<Transfer, QfError>(funding_transfer(*old(ctx), amount))
                && *final(ctx) == (FundMatchingPool {
                round: funded(old(ctx).round, amount),
                ..*old(ctx)
            }),
        },
        r is Ok <==> amount > 0 && !old(ctx).round.finalized
            && old(ctx).round.matching_pool_total + amount <= u64::MAX,
        r is Ok ==> {
            &&& r->Ok_0.from == old(ctx).sponsor
            &&& r->Ok_0.to == old(ctx).round_key
            &&& r->Ok_0.lamports == amount
            &&& final(ctx).round.matching_pool_total - old(ctx).round.matching_pool_total
                == r->Ok_0.lamports
            &&& *final(ctx) == (FundMatchingPool {
                round: Round {
                    matching_pool_total: final(ctx).round.matching_pool_total,
                    ..old(ctx).round
                },
                ..*old(ctx)
            })
        },
{
    let transfer = match fund_transfer(ctx, amount) {
        Ok(transfer) => transfer,
        Err(e) => return Err(e),
    };
    match ctx.round.matching_pool_total.checked_add(amount) {
        Some(v) => {
            ctx.round.matching_pool_total = v;
            Ok(transfer)
        },
        None => Err(QfError::MathOverflow),
    }
}

/// An amount is accepted for the pool just where there is one, the round is not
/// finalized, and the pool does not overflow. Otherwise the first of these that
/// does not hold is the reason; the first two are known before anything moves.
pub proof fn law_funding_is_accepted_exactly(ctx: FundMatchingPool, amount: u64)
    ensures
        ({
            let over = ctx.round.matching_pool_total + amount > u64::MAX;
            let open = amount > 0 && !ctx.round.finalized;
            let refusal = funding_refusal(ctx, amount);
            &&& refusal is None <==> open && !over
            &&& refusal == Some(QfError::InvalidAmount) <==> amount == 0
            &&& refusal == Some(QfError::RoundFinalized) <==> amount > 0 && ctx.round.finalized
            &&& refusal == Some(QfError::MathOverflow) <==> open && over
            &&& transfer_refusal(ctx, amount) is None <==> open
            &&& !open ==> transfer_refusal(ctx, amount) == refusal
        }),
{
}

/// The pool grows by just what is moved from the sponsor to the round, and by all
/// of it. Nothing else of the round changes.
pub proof fn law_pool_grows_by_what_is_moved(ctx: FundMatchingPool, amount: u64)
    requires
        funding_refusal(ctx, amount) is None,
    ensures
        ({
            let round = funded(ctx.round, amount);
            let moved = funding_transfer(ctx, amount);
            &&& moved.from == ctx.sponsor
            &&& moved.to == ctx.round_key
            &&& moved.lamports == amount
            &&& round.matching_pool_total - ctx.round.matching_pool_total == moved.lamports
            &&& round.creator == ctx.round.creator
            &&& round.round_id == ctx.round.round_id
            &&& round.deadline_unix == ctx.round.deadline_unix
            &&& round.project_owners == ctx.round.project_owners
            &&& round.project_count == ctx.round.project_count
            &&& round.total_qf_score == ctx.round.total_qf_score
            &&& round.finalized == ctx.round.finalized
            &&& round.bump == ctx.round.bump
        }),
{
}

/// Two amounts, one after the other, fill the pool as their sum does at once.
pub proof fn law_funding_adds_up(ctx: FundMatchingPool, a: u64, b: u64)
    requires
        funding_refusal(ctx, a) is None,
        funding_refusal(FundMatchingPool { round: funded(ctx.round, a), ..ctx }, b) is None,
    ensures
        a + b <= u64::MAX,
        funding_refusal(ctx, (a + b) as u64) is None,
        funded(funded(ctx.round, a), b) == funded(ctx.round, (a + b) as u64),
{
}

} // verus!
