//! Entering a project in a round.
use vstd::prelude::*;
use crate::accounts::RegisterProject;
use crate::error::QfError;
use crate::key::Pubkey;
use crate::state;
use crate::state::{Project, Round, MAX_NAME_LEN, MAX_PROJECTS};

verus! {

/// Why a project cannot be registered, if it cannot.
pub open spec fn registration_refusal(
    ctx: RegisterProject,
    name: Seq<char>,
    now: i64,
) -> Option<QfError> {
    if state::name_len(name) > MAX_NAME_LEN {
        Some(QfError::NameTooLong)
    } else if ctx.round.finalized {
        Some(QfError::RoundFinalized)
    } else if now >= ctx.round.deadline_unix {
        Some(QfError::DeadlinePassed)
    } else if ctx.round.project_count >= MAX_PROJECTS {
        Some(QfError::InvalidProjectCount)
    } else {
        None
    }
}

/// A project that was just registered: nobody has given anything.
pub open spec fn new_project(round: Pubkey, owner: Pubkey, name: String, bump: u8) -> Project {
    Project {
        round,
        owner,
        name,
        total_donated: 0,
        sqrt_sum: 0,
        donor_count: 0,
        qf_score: 0,
        claimed: false,
        bump,
    }
}

/// The round with one more project, of `owner`, in the next free slot.
pub open spec fn with_project(round: Round, owner: Pubkey) -> Round {
    Round {
        project_owners: vstd::array::spec_array_update(
            round.project_owners,
            round.project_count as int,
            owner,
        ),
        project_count: (round.project_count + 1) as u8,
        ..round
    }
}

/// Registers a project called `name`, owned by the signer. A refused call
/// changes nothing.
pub fn register_project(ctx: &mut RegisterProject, name: String, now: i64) -> (r: Result<
    (),
    QfError,
>)
    ensures
        match registration_refusal(*old(ctx), name@, now) {
            Some(e) => r == Err::<(), QfError>(e) && *final(ctx) == *old(ctx),
            None => r is Ok && *final(ctx) == (RegisterProject {
                project: new_project(old(ctx).round_key, old(ctx).owner, name, old(ctx).bump),
                round: with_project(old(ctx).round, old(ctx).owner),
                ..*old(ctx)
            }),
        },
        r is Ok <==> {
            &&& vstd::utf8::encode_utf8(name@).len() <= 50
            &&& !old(ctx).round.finalized
            &&& now < old(ctx).round.deadline_unix
            &&& old(ctx).round.project_count < 10
        },
        r is Ok ==> {
            &&& final(ctx).project.round == old(ctx).round_key
            &&& final(ctx).project.owner == old(ctx).owner
            &&& final(ctx).project.name == name
            &&& final(ctx).project.total_donated == 0
            &&& final(ctx).project.sqrt_sum == 0
            &&& final(ctx).project.donor_count == 0
            &&& final(ctx).project.qf_score == 0
            &&& !final(ctx).project.claimed
            &&& final(ctx).project.bump == old(ctx).bump
            &&& final(ctx).round.project_count == old(ctx).round.project_count + 1
            &&& final(ctx).round.project_owners@ == old(ctx).round.project_owners@.update(
                old(ctx).round.project_count as int,
                old(ctx).owner,
            )
            &&& *final(ctx) == (RegisterProject {
                round: Round {
                    project_owners: final(ctx).round.project_owners,
                    project_count: final(ctx).round.project_count,
                    ..old(ctx).round
                },
                project: final(ctx).project,
                ..*old(ctx)
            })
        },
        r is Ok ==> final(ctx).round.well_formed(),
        r is Ok ==> final(ctx).round.owners() == old(ctx).round.owners().push(old(ctx).owner),
{
    if name.as_str().as_bytes().len() > MAX_NAME_LEN {
        return Err(QfError::NameTooLong);
    }
    if ctx.round.finalized {
        return Err(QfError::RoundFinalized);
    }
    if now >= ctx.round.deadline_unix {
        return Err(QfError::DeadlinePassed);
    }
    if ctx.round.project_count >= MAX_PROJECTS {
        return Err(QfError::InvalidProjectCount);
    }
    ctx.project = Project {
        round: ctx.round_key,
        owner: ctx.owner,
        name,
        total_donated: 0,
        sqrt_sum: 0,
        donor_count: 0,
        qf_score: 0,
        claimed: false,
        bump: ctx.bump,
    };
    let slot: usize = ctx.round.project_count as usize;
    ctx.round.project_owners[slot] = ctx.owner;
    ctx.round.project_count = ctx.round.project_count + 1;
    Ok(())
}

/// A registration is accepted just where the name has fifty bytes or fewer, the
/// round is not finalized, the deadline is still ahead, and there is a free slot.
/// Otherwise the first of these that does not hold is the reason.
pub proof fn law_registration_is_accepted_exactly(
    ctx: RegisterProject,
    name: Seq<char>,
    now: i64,
)
    ensures
        ({
            let long = vstd::utf8::encode_utf8(name).len() > 50;
            let late = now >= ctx.round.deadline_unix;
            let full = ctx.round.project_count >= 10;
            let refusal = registration_refusal(ctx, name, now);
            &&& refusal is None <==> !long && !ctx.round.finalized && !late && !full
            &&& refusal == Some(QfError::NameTooLong) <==> long
            &&& refusal == Some(QfError::RoundFinalized) <==> !long && ctx.round.finalized
            &&& refusal == Some(QfError::DeadlinePassed) <==> !long && !ctx.round.finalized && late
            &&& refusal == Some(QfError::InvalidProjectCount) <==> !long && !ctx.round.finalized
                && !late && full
        }),
{
}

/// A registration that is accepted at some time is accepted at every earlier time
/// as well, and at every later time before the deadline.
pub proof fn law_registration_stays_open_until_the_deadline(
    ctx: RegisterProject,
    name: Seq<char>,
    now: i64,
    other: i64,
)
    requires
        registration_refusal(ctx, name, now) is None,
        other < ctx.round.deadline_unix,
    ensures
        registration_refusal(ctx, name, other) is None,
{
}

/// A registration fills the next free slot and the project, and nothing else: a
/// new project has its round, its owner, its name and its bump seed, and all of
/// its figures are zero.
pub proof fn law_registration_fills_one_slot(
    ctx: RegisterProject,
    name: String,
    now: i64,
)
    requires
        registration_refusal(ctx, name@, now) is None,
    ensures
        ({
            let round = with_project(ctx.round, ctx.owner);
            let project = new_project(ctx.round_key, ctx.owner, name, ctx.bump);
            &&& round.project_count == ctx.round.project_count + 1
            &&& round.project_owners[ctx.round.project_count as int] == ctx.owner
            &&& forall|i: int|
                0 <= i < 10 && i != ctx.round.project_count ==> #[trigger] round.project_owners[i]
                    == ctx.round.project_owners[i]
            &&& round.creator == ctx.round.creator
            &&& round.round_id == ctx.round.round_id
            &&& round.deadline_unix == ctx.round.deadline_unix
            &&& round.matching_pool_total == ctx.round.matching_pool_total
            &&& round.total_qf_score == ctx.round.total_qf_score
            &&& round.finalized == ctx.round.finalized
            &&& round.bump == ctx.round.bump
            &&& project.round == ctx.round_key
            &&& project.owner == ctx.owner
            &&& project.name == name
            &&& project.bump == ctx.bump
            &&& project.total_donated == 0
            &&& project.sqrt_sum == 0
            &&& project.donor_count == 0
            &&& project.qf_score == 0
            &&& !project.claimed
        }),
{
}

} // verus!
