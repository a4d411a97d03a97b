//! Giving to a project.
//!
//! A donation moves lamports from the donor to the round and books them on
//! the project. The project keeps the sum of the roots of what each donor has
//! given in all, so a donation takes out the root of what the donor had given
//! before and puts in the root of what the donor has given now.
//!
//! The lamports move between the checks and the bookkeeping:
//! [`donate_transfer`] runs the checks and says what to move, and [`donate`]
//! runs them again and books the donation.
use vstd::prelude::*;
use crate::accounts::{Donate, Transfer};
use crate::error::QfError;
use crate::key;
use crate::key::Pubkey;
use crate::sqrt;
use crate::sqrt::isqrt;
use crate::state::{Contribution, Project};

verus! {

/// Why a donation is refused before anything is moved, if it is.
pub open spec fn transfer_refusal(ctx: Donate, amount: u64, now: i64) -> Option<QfError> {
    if ctx.project.round != ctx.round_key {
        Some(QfError::InvalidProjectAccount)
    } else if amount == 0 {
        Some(QfError::InvalidAmount)
    } else if ctx.round.finalized {
        Some(QfError::RoundFinalized)
    } else if now >= ctx.round.deadline_unix {
        Some(QfError::DeadlinePassed)
    } else {
        None
    }
}

/// The contribution was never written: the donor gives for the first time.
pub open spec fn is_new_donor(contribution: Contribution) -> bool {
    contribution.amount == 0 && contribution.donor == key::zero_key()
}

/// The root of all that a donor has given.
pub open spec fn root(amount: int) -> int {
    sqrt::floor_sqrt(amount as nat) as int
}

/// One of the figures to be booked would not fit where it is kept.
pub open spec fn donation_overflows(ctx: Donate, amount: u64) -> bool {
    ||| ctx.contribution.amount + amount > u64::MAX
    ||| ctx.project.sqrt_sum + root(ctx.contribution.amount + amount) > u128::MAX
    ||| ctx.project.total_donated + amount > u64::MAX
    ||| is_new_donor(ctx.contribution) && ctx.project.donor_count == u32::MAX
}

/// The contribution of the donor after the donation.
pub open spec fn contribution_after(ctx: Donate, amount: u64) -> Contribution {
    Contribution {
        donor: ctx.donor,
        project: ctx.project_key,
        amount: (ctx.contribution.amount + amount) as u64,
        bump: ctx.bump,
    }
}

/// The project after the donation.
pub open spec fn project_after(ctx: Donate, amount: u64) -> Project {
    Project {
        total_donated: (ctx.project.total_donated + amount) as u64,
        sqrt_sum: (ctx.project.sqrt_sum + root(ctx.contribution.amount + amount) - root(
            ctx.contribution.amount as int,
        )) as u128,
        donor_count: if is_new_donor(ctx.contribution) {
            (ctx.project.donor_count + 1) as u32
        } else {
            ctx.project.donor_count
        },
        ..ctx.project
    }
}

/// The accounts after the donation.
pub open spec fn donated(ctx: Donate, amount: u64) -> Donate {
    Donate {
        project: project_after(ctx, amount),
        contribution: contribution_after(ctx, amount),
        ..ctx
    }
}

/// Why a donation is refused, if it is.
pub open spec fn donation_refusal(ctx: Donate, amount: u64, now: i64) -> Option<QfError> {
    if transfer_refusal(ctx, amount, now) is Some {
        transfer_refusal(ctx, amount, now)
    } else if donation_overflows(ctx, amount) {
        Some(QfError::MathOverflow)
    } else {
        None
    }
}

/// What a donation moves.
pub open spec fn donation_transfer(ctx: Donate, amount: u64) -> Transfer {
    Transfer { from: ctx.donor, to: ctx.round_key, lamports: amount }
}

/// Checks a donation and returns what it moves. The donation may still be
/// refused by [`donate`] where its figures overflow.
pub fn donate_transfer(ctx: &Donate, amount: u64, now: i64) -> (r: Result<Transfer, QfError>)
    ensures
        r == match transfer_refusal(*ctx, amount, now) {
            Some(e) => Err::<Transfer, QfError>(e),
            None => Ok(donation_transfer(*ctx, amount)),
        },
        r is Ok <==> {
            &&& ctx.project.round == ctx.round_key
            &&& amount > 0
            &&& !ctx.round.finalized
            &&& now < ctx.round.deadline_unix
        },
        r is Ok ==> r->Ok_0.from == ctx.donor && r->Ok_0.to == ctx.round_key
            && r->Ok_0.lamports == amount,
{
    if ctx.project.round != ctx.round_key {
        return Err(QfError::InvalidProjectAccount);
    }
    if amount == 0 {
        return Err(QfError::InvalidAmount);
    }
    if ctx.round.finalized {
        return Err(QfError::RoundFinalized);
    }
    if now >= ctx.round.deadline_unix {
        return Err(QfError::DeadlinePassed);
    }
    Ok(Transfer { from: ctx.donor, to: ctx.round_key, lamports: amount })
}

/// Books a donation of `amount` lamports and returns what it moves. A refused
/// donation changes nothing.
pub fn donate(ctx: &mut Donate, amount: u64, now: i64) -> (r: Result<Transfer, QfError>)
    ensures
        match donation_refusal(*old(ctx), amount, now) {
            Some(e) => r == Err::<Transfer, QfError>(e) && *final(ctx) == *old(ctx),
            None => r == Ok::<Transfer, QfError>(donation_transfer(*old(ctx), amount))
                && *final(ctx) == donated(*old(ctx), amount),
        },
        r is Ok <==> {
            let given = old(ctx).contribution.amount + amount;
            let new = old(ctx).contribution.amount == 0 && forall|i: int|
                0 <= i < 32 ==> #[trigger] old(ctx).contribution.donor.bytes[i] == 0;
            &&& old(ctx).project.round == old(ctx).round_key
            &&& amount > 0
            &&& !old(ctx).round.finalized
            &&& now < old(ctx).round.deadline_unix
            &&& given <= u64::MAX
            &&& old(ctx).project.sqrt_sum + sqrt::floor_sqrt(given as nat) <= u128::MAX
            &&& old(ctx).project.total_donated + amount <= u64::MAX
            &&& new ==> old(ctx).project.donor_count < u32::MAX
        },
        r is Err ==> *final(ctx) == *old(ctx),
        r is Ok ==> {
            let before = old(ctx).contribution.amount as nat;
            let new = old(ctx).contribution.amount == 0 && forall|i: int|
                0 <= i < 32 ==> #[trigger] old(ctx).contribution.donor.bytes[i] == 0;
            &&& r->Ok_0.from == old(ctx).donor
            &&& r->Ok_0.to == old(ctx).round_key
            &&& r->Ok_0.lamports == amount
            &&& final(ctx).project.total_donated - old(ctx).project.total_donated == amount
            &&& final(ctx).contribution.amount - old(ctx).contribution.amount == amount
            &&& final(ctx).contribution.donor == old(ctx).donor
            &&& final(ctx).contribution.project == old(ctx).project_key
            &&& final(ctx).contribution.bump == old(ctx).bump
            &&& final(ctx).project.sqrt_sum - old(ctx).project.sqrt_sum == sqrt::floor_sqrt(
                before + amount as nat,
            ) - sqrt::floor_sqrt(before)
            &&& final(ctx).project.donor_count - old(ctx).project.donor_count == if new {
                1int
            } else {
                0int
            }
            &&& *final(ctx) == (Donate {
                project: Project {
                    total_donated: final(ctx).project.total_donated,
                    sqrt_sum: final(ctx).project.sqrt_sum,
                    donor_count: final(ctx).project.donor_count,
                    ..old(ctx).project
                },
                contribution: final(ctx).contribution,
                ..*old(ctx)
            })
        },
{
    proof {
        law_donation_is_accepted_exactly(*ctx, amount, now);
        key::law_zero_key_is_all_zeros(ctx.contribution.donor);
    }
    let transfer = match donate_transfer(ctx, amount, now) {
        Ok(transfer) => transfer,
        Err(e) => return Err(e),
    };
    let new_donor = ctx.contribution.amount == 0 && ctx.contribution.donor == Pubkey::default();
    let old_amount: u64 = ctx.contribution.amount;
    let new_amount: u64 = match old_amount.checked_add(amount) {
        Some(v) => v,
        None => return Err(QfError::MathOverflow),
    };
    let old_sqrt: u128 = isqrt(old_amount) as u128;
    let new_sqrt: u128 = isqrt(new_amount) as u128;
    proof {
        sqrt::law_floor_sqrt_is_monotone(old_amount as nat, new_amount as nat);
    }
    let sqrt_sum: u128 = match ctx.project.sqrt_sum.checked_add(new_sqrt) {
        Some(v) => v - old_sqrt,
        None => return Err(QfError::MathOverflow),
    };
    let total_donated: u64 = match ctx.project.total_donated.checked_add(amount) {
        Some(v) => v,
        None => return Err(QfError::MathOverflow),
    };
    let donor_count: u32 = if new_donor {
        match ctx.project.donor_count.checked_add(1) {
            Some(v) => v,
            None => return Err(QfError::MathOverflow),
        }
    } else {
        ctx.project.donor_count
    };

    ctx.contribution.donor = ctx.donor;
    ctx.contribution.project = ctx.project_key;
    ctx.contribution.amount = new_amount;
    ctx.contribution.bump = ctx.bump;
    ctx.project.sqrt_sum = sqrt_sum;
    ctx.project.total_donated = total_donated;
    ctx.project.donor_count = donor_count;
    Ok(transfer)
}

/// A donation is accepted just where the project belongs to the round, there is
/// an amount, the round is not finalized, the deadline is still ahead, and none of
/// the figures overflows. Otherwise the first of these that does not hold is the
/// reason; all but the last are known before anything moves.
pub proof fn law_donation_is_accepted_exactly(ctx: Donate, amount: u64, now: i64)
    ensures
        ({
            let foreign = ctx.project.round != ctx.round_key;
            let late = now >= ctx.round.deadline_unix;
            let given = ctx.contribution.amount + amount;
            let new = ctx.contribution.amount == 0 && forall|i: int|
                0 <= i < 32 ==> #[trigger] ctx.contribution.donor.bytes[i] == 0;
            let over = {
                ||| given > u64::MAX
                ||| ctx.project.sqrt_sum + sqrt::floor_sqrt(given as nat) > u128::MAX
                ||| ctx.project.total_donated + amount > u64::MAX
                ||| new && ctx.project.donor_count + 1 > u32::MAX
            };
            let open = !foreign && amount > 0 && !ctx.round.finalized && !late;
            let refusal = donation_refusal(ctx, amount, now);
            &&& refusal is None <==> open && !over
            &&& refusal == Some(QfError::InvalidProjectAccount) <==> foreign
            &&& refusal == Some(QfError::InvalidAmount) <==> !foreign && amount == 0
            &&& refusal == Some(QfError::RoundFinalized) <==> !foreign && amount > 0
                && ctx.round.finalized
            &&& refusal == Some(QfError::DeadlinePassed) <==> !foreign && amount > 0
                && !ctx.round.finalized && late
            &&& refusal == Some(QfError::MathOverflow) <==> open && over
            &&& transfer_refusal(ctx, amount, now) is None <==> open
            &&& !open ==> transfer_refusal(ctx, amount, now) == refusal
        }),
{
    key::law_zero_key_is_all_zeros(ctx.contribution.donor);
}

/// A donation that is accepted at some time is accepted at every other time
/// before the deadline.
pub proof fn law_donations_stay_open_until_the_deadline(
    ctx: Donate,
    amount: u64,
    now: i64,
    other: i64,
)
    requires
        donation_refusal(ctx, amount, now) is None,
        other < ctx.round.deadline_unix,
    ensures
        donation_refusal(ctx, amount, other) is None,
{
}

/// All that is moved from the donor to the round is booked: on the project, and
/// on the donor's contribution. The sum of the roots changes by as much as the
/// root of what the donor has given in all, and a donor who had not given
/// anything is counted. Nothing else changes.
pub proof fn law_donation_books_what_is_moved(ctx: Donate, amount: u64, now: i64)
    requires
        donation_refusal(ctx, amount, now) is None,
    ensures
        ({
            let moved = donation_transfer(ctx, amount);
            let after = donated(ctx, amount);
            let before = ctx.contribution.amount as nat;
            let new = ctx.contribution.amount == 0 && forall|i: int|
                0 <= i < 32 ==> #[trigger] ctx.contribution.donor.bytes[i] == 0;
            &&& moved.from == ctx.donor
            &&& moved.to == ctx.round_key
            &&& moved.lamports == amount
            &&& after.project.total_donated - ctx.project.total_donated == moved.lamports
            &&& after.contribution.amount - ctx.contribution.amount == moved.lamports
            &&& after.project.sqrt_sum - ctx.project.sqrt_sum == sqrt::floor_sqrt(
                before + amount as nat,
            ) - sqrt::floor_sqrt(before)
            &&& after.project.donor_count - ctx.project.donor_count == if new { 1int } else { 0int }
            &&& after.contribution.donor == ctx.donor
            &&& after.contribution.project == ctx.project_key
            &&& after.contribution.bump == ctx.bump
            &&& after.project.round == ctx.project.round
            &&& after.project.owner == ctx.project.owner
            &&& after.project.name == ctx.project.name
            &&& after.project.qf_score == ctx.project.qf_score
            &&& after.project.claimed == ctx.project.claimed
            &&& after.project.bump == ctx.project.bump
            &&& after.donor == ctx.donor
            &&& after.round_key == ctx.round_key
            &&& after.round == ctx.round
            &&& after.project_key == ctx.project_key
            &&& after.bump == ctx.bump
            &&& after.project == project_after(ctx, amount)
            &&& after.contribution == contribution_after(ctx, amount)
        }),
{
    let before = ctx.contribution.amount as nat;
    sqrt::law_floor_sqrt_is_monotone(before, before + amount as nat);
    key::law_zero_key_is_all_zeros(ctx.contribution.donor);
}

} // verus!
