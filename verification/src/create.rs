//! Starting a round.
use vstd::prelude::*;
use crate::accounts::{CreateRound, Donate, FundMatchingPool, RegisterProject};
use crate::donate;
use crate::error::QfError;
use crate::fund;
use crate::key;
use crate::key::Pubkey;
use crate::register;
use crate::sqrt;
use crate::state::Round;

verus! {

/// A round that was just started: no projects, nothing in the pool.
pub open spec fn new_round(creator: Pubkey, round_id: u64, deadline_unix: i64, bump: u8) -> Round {
    Round {
        creator,
        round_id,
        deadline_unix,
        project_owners: vstd::array::spec_array_fill_for_copy_type::<Pubkey, 10>(key::zero_key()),
        project_count: 0,
        matching_pool_total: 0,
        total_qf_score: 0,
        finalized: false,
        bump,
    }
}

/// Starts a round that is open until `deadline_unix`. A deadline that is not
/// ahead of `now` is refused, and changes nothing.
pub fn create_round(
    ctx: &mut CreateRound,
    round_id: u64,
    deadline_unix: i64,
    now: i64,
) -> (r: Result<(), QfError>)
    ensures
        deadline_unix <= now ==> r == Err::<(), QfError>(QfError::DeadlinePassed) && *final(ctx)
            == *old(ctx),
        deadline_unix > now ==> r is Ok && *final(ctx) == (CreateRound {
            round: new_round(old(ctx).creator, round_id, deadline_unix, old(ctx).bump),
            ..*old(ctx)
        }),
        r is Ok <==> now < deadline_unix,
        r is Ok ==> {
            &&& final(ctx).creator == old(ctx).creator
            &&& final(ctx).bump == old(ctx).bump
            &&& final(ctx).round.creator == old(ctx).creator
            &&& final(ctx).round.round_id == round_id
            &&& final(ctx).round.deadline_unix == deadline_unix
            &&& final(ctx).round.project_count == 0
            &&& final(ctx).round.matching_pool_total == 0
            &&& final(ctx).round.total_qf_score == 0
            &&& !final(ctx).round.finalized
            &&& final(ctx).round.bump == old(ctx).bump
        },
        r is Ok ==> final(ctx).round.well_formed(),
        r is Ok ==> forall|i: int|
            0 <= i < 10 ==> final(ctx).round.project_owners[i] == key::zero_key(),
{
    if deadline_unix <= now {
        return Err(QfError::DeadlinePassed);
    }
    ctx.round = Round {
        creator: ctx.creator,
        round_id,
        deadline_unix,
        project_owners: [Pubkey::default(); 10],
        project_count: 0,
        matching_pool_total: 0,
        total_qf_score: 0,
        finalized: false,
        bump: ctx.bump,
    };
    Ok(())
}

/// A round starts with what it was asked for: its creator, its number, its bump
/// seed, and the very deadline that was given. It starts with nothing else.
pub proof fn law_new_round_is_as_asked(
    creator: Pubkey,
    round_id: u64,
    deadline_unix: i64,
    bump: u8,
)
    ensures
        ({
            let round = new_round(creator, round_id, deadline_unix, bump);
            &&& round.creator == creator
            &&& round.round_id == round_id
            &&& round.deadline_unix == deadline_unix
            &&& round.bump == bump
            &&& round.project_count == 0
            &&& round.matching_pool_total == 0
            &&& round.total_qf_score == 0
            &&& !round.finalized
            &&& forall|i: int, b: int|
                0 <= i < 10 && 0 <= b < 32 ==> #[trigger] round.project_owners[i].bytes[b] == 0
        }),
{
    let round = new_round(creator, round_id, deadline_unix, bump);
    assert forall|i: int, b: int| 0 <= i < 10 && 0 <= b < 32 implies
        #[trigger] round.project_owners[i].bytes[b] == 0 by {
        assert(round.project_owners[i] == key::zero_key());
    }
}

/// A round that was just created is open: until its deadline it takes
/// registrations, donations and additions to the pool.
pub proof fn law_new_round_is_open(
    creator: Pubkey,
    round_id: u64,
    deadline_unix: i64,
    bump: u8,
    registration: RegisterProject,
    name: Seq<char>,
    donation: Donate,
    funding: FundMatchingPool,
    amount: u64,
    now: i64,
)
    requires
        now < deadline_unix,
        registration.round == new_round(creator, round_id, deadline_unix, bump),
        donation.round == new_round(creator, round_id, deadline_unix, bump),
        funding.round == new_round(creator, round_id, deadline_unix, bump),
        vstd::utf8::encode_utf8(name).len() <= 50,
        amount > 0,
        donation.project.round == donation.round_key,
        donation.contribution.amount + amount <= u64::MAX,
        donation.project.total_donated + amount <= u64::MAX,
        donation.project.sqrt_sum <= u64::MAX,
        donation.project.donor_count < u32::MAX,
    ensures
        register::registration_refusal(registration, name, now) is None,
        donate::donation_refusal(donation, amount, now) is None,
        fund::funding_refusal(funding, amount) is None,
{
    sqrt::lemma_root_fits((donation.contribution.amount + amount) as u64);
}

} // verus!
