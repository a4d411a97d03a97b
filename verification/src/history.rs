//! What a round holds after any course of instructions.
//!
//! The laws here follow a round from its creation through accepted instructions
//! of every kind, in any order and number.
use vstd::prelude::*;
use crate::accounts::{ClaimPayout, Donate, FinalizeRound, FundMatchingPool, RegisterProject};
use crate::address;
use crate::claim;
use crate::create;
use crate::donate;
use crate::finalize;
use crate::fund;
use crate::key::Pubkey;
use crate::lifecycle;
use crate::register;
use crate::state::{Round, MAX_PROJECTS};
use crate::sums;

verus! {

/// An instruction that a round is part of, with its accounts and arguments.
pub enum Step {
    Register { ctx: RegisterProject, name: String, now: i64 },
    Fund { ctx: FundMatchingPool, amount: u64 },
    Give { ctx: Donate, amount: u64, now: i64 },
    Finalize { ctx: FinalizeRound, now: i64 },
    Claim { ctx: ClaimPayout, rent_exempt_minimum: u64 },
}

/// The instruction is for this round, in this state, and is accepted.
pub open spec fn is_accepted(round_key: Pubkey, round: Round, step: Step) -> bool {
    match step {
        Step::Register { ctx, name, now } => {
            &&& ctx.round_key == round_key
            &&& ctx.round == round
            &&& register::registration_refusal(ctx, name@, now) is None
        },
        Step::Fund { ctx, amount } => {
            &&& ctx.round_key == round_key
            &&& ctx.round == round
            &&& fund::funding_refusal(ctx, amount) is None
        },
        Step::Give { ctx, amount, now } => {
            &&& ctx.round_key == round_key
            &&& ctx.round == round
            &&& donate::donation_refusal(ctx, amount, now) is None
        },
        Step::Finalize { ctx, now } => {
            &&& ctx.round_key == round_key
            &&& ctx.round == round
            &&& finalize::finalize_refusal(
                ctx,
                address::project_addresses(round_key, round),
                now,
            ) is None
        },
        Step::Claim { ctx, rent_exempt_minimum } => {
            &&& ctx.round_key == round_key
            &&& ctx.round == round
            &&& claim::claim_refusal(ctx, rent_exempt_minimum) is None
        },
    }
}

/// What the instruction makes of the round.
pub open spec fn round_after(round: Round, step: Step) -> Round {
    match step {
        Step::Register { ctx, .. } => register::with_project(round, ctx.owner),
        Step::Fund { amount, .. } => fund::funded(round, amount),
        Step::Give { ctx, amount, .. } => donate::donated(ctx, amount).round,
        Step::Finalize { ctx, .. } => finalize::finalized(
            round,
            finalize::projects_of(ctx.projects@),
        ),
        Step::Claim { ctx, .. } => claim::claimed(ctx).round,
    }
}

/// What the instructions make of the round, one after the other.
pub open spec fn round_after_all(round: Round, steps: Seq<Step>) -> Round
    decreases steps.len(),
{
    if steps.len() == 0 {
        round
    } else {
        round_after(round_after_all(round, steps.drop_last()), steps.last())
    }
}

/// Each of the instructions is accepted in its turn.
pub open spec fn all_accepted(round_key: Pubkey, round: Round, steps: Seq<Step>) -> bool
    decreases steps.len(),
{
    steps.len() > 0 ==> {
        &&& all_accepted(round_key, round, steps.drop_last())
        &&& is_accepted(round_key, round_after_all(round, steps.drop_last()), steps.last())
    }
}

/// The owners who register a project, in order.
pub open spec fn registrants(steps: Seq<Step>) -> Seq<Pubkey>
    decreases steps.len(),
{
    if steps.len() == 0 {
        Seq::empty()
    } else {
        let before = registrants(steps.drop_last());
        match steps.last() {
            Step::Register { ctx, .. } => before.push(ctx.owner),
            _ => before,
        }
    }
}

/// No two registrations create the account of their project at one address.
pub open spec fn created_once(round_key: Pubkey, owners: Seq<Pubkey>) -> bool {
    forall|i: int, j: int|
        0 <= i < j < owners.len() ==> #[trigger] address::project_address(round_key, owners[i])
            != #[trigger] address::project_address(round_key, owners[j])
}

/// Whatever was done with a round since it was created, it holds the owners who
/// registered, in order of registration, and no others: as many as its count
/// says, each in the slot of its turn, and the zero address in the other slots.
pub proof fn law_round_holds_its_registrants(
    round_key: Pubkey,
    creator: Pubkey,
    round_id: u64,
    deadline_unix: i64,
    bump: u8,
    steps: Seq<Step>,
)
    requires
        all_accepted(
            round_key,
            create::new_round(creator, round_id, deadline_unix, bump),
            steps,
        ),
    ensures
        ({
            let start = create::new_round(creator, round_id, deadline_unix, bump);
            let round = round_after_all(start, steps);
            let owners = registrants(steps);
            &&& round.well_formed()
            &&& lifecycle::same_terms(round, start)
            &&& round.project_count == owners.len() <= MAX_PROJECTS
            &&& round.owners() == owners
            &&& forall|i: int|
                0 <= i < owners.len() ==> #[trigger] round.project_owners[i] == owners[i]
            &&& lifecycle::free_slots_are_blank(round)
        }),
    decreases steps.len(),
{
    let start = create::new_round(creator, round_id, deadline_unix, bump);
    let round = round_after_all(start, steps);
    let owners = registrants(steps);
    if steps.len() > 0 {
        let earlier = steps.drop_last();
        law_round_holds_its_registrants(
            round_key,
            creator,
            round_id,
            deadline_unix,
            bump,
            earlier,
        );
        let before = round_after_all(start, earlier);
        assert(before.owners() == registrants(earlier));
        if let Step::Register { ctx, .. } = steps.last() {
            assert(round.owners() =~= before.owners().push(ctx.owner));
        } else {
            assert(round.owners() =~= before.owners());
        }
    } else {
        assert(round.owners() =~= owners);
    }
    assert forall|i: int| 0 <= i < owners.len() implies #[trigger] round.project_owners[i]
        == owners[i] by {
        assert(round.owners()[i] == owners[i]);
    }
}

/// Nobody has two projects in a round: whatever was done with the round since it
/// was created, its owners are pairwise distinct. The account of a project lives
/// at the address that belongs to the round and the owner, and an account is
/// created once.
pub proof fn law_owners_are_distinct(
    round_key: Pubkey,
    creator: Pubkey,
    round_id: u64,
    deadline_unix: i64,
    bump: u8,
    steps: Seq<Step>,
)
    requires
        all_accepted(
            round_key,
            create::new_round(creator, round_id, deadline_unix, bump),
            steps,
        ),
        created_once(round_key, registrants(steps)),
    ensures
        round_after_all(
            create::new_round(creator, round_id, deadline_unix, bump),
            steps,
        ).owners().no_duplicates(),
{
    law_round_holds_its_registrants(round_key, creator, round_id, deadline_unix, bump, steps);
    let owners = registrants(steps);
    assert forall|i: int, j: int|
        0 <= i < owners.len() && 0 <= j < owners.len() && i != j implies owners[i]
        != owners[j] by {
        let (low, high) = if i < j { (i, j) } else { (j, i) };
        assert(address::project_address(round_key, owners[low]) != address::project_address(
            round_key,
            owners[high],
        ));
    }
}

/// Whatever was done with a round since it was created, its pool is the sum of
/// all that sponsors have added. No other instruction adds to it or takes from
/// it.
pub proof fn law_pool_is_all_that_was_added(
    round_key: Pubkey,
    creator: Pubkey,
    round_id: u64,
    deadline_unix: i64,
    bump: u8,
    steps: Seq<Step>,
)
    requires
        all_accepted(
            round_key,
            create::new_round(creator, round_id, deadline_unix, bump),
            steps,
        ),
    ensures
        round_after_all(
            create::new_round(creator, round_id, deadline_unix, bump),
            steps,
        ).matching_pool_total == sums::sum(
            steps,
            |step: Step|
                match step {
                    Step::Fund { amount, .. } => amount as int,
                    _ => 0,
                },
        ),
    decreases steps.len(),
{
    if steps.len() > 0 {
        law_pool_is_all_that_was_added(
            round_key,
            creator,
            round_id,
            deadline_unix,
            bump,
            steps.drop_last(),
        );
    }
}

/// Whatever was done with a round since it was created, its creator, its number,
/// its deadline and its bump are those that it was created with.
pub proof fn law_round_keeps_what_it_was_created_with(
    round_key: Pubkey,
    creator: Pubkey,
    round_id: u64,
    deadline_unix: i64,
    bump: u8,
    steps: Seq<Step>,
)
    requires
        all_accepted(
            round_key,
            create::new_round(creator, round_id, deadline_unix, bump),
            steps,
        ),
    ensures
        ({
            let round = round_after_all(
                create::new_round(creator, round_id, deadline_unix, bump),
                steps,
            );
            &&& round.creator == creator
            &&& round.round_id == round_id
            &&& round.deadline_unix == deadline_unix
            &&& round.bump == bump
        }),
{
    law_round_holds_its_registrants(round_key, creator, round_id, deadline_unix, bump, steps);
}

/// Whatever was done with a round since it was created, it is finalized just
/// where one of the instructions finalized it.
pub proof fn law_round_is_finalized_by_finalizing(
    round_key: Pubkey,
    creator: Pubkey,
    round_id: u64,
    deadline_unix: i64,
    bump: u8,
    steps: Seq<Step>,
)
    requires
        all_accepted(
            round_key,
            create::new_round(creator, round_id, deadline_unix, bump),
            steps,
        ),
    ensures
        round_after_all(
            create::new_round(creator, round_id, deadline_unix, bump),
            steps,
        ).finalized <==> exists|i: int| 0 <= i < steps.len() && #[trigger] steps[i] is Finalize,
    decreases steps.len(),
{
    if steps.len() > 0 {
        let earlier = steps.drop_last();
        law_round_is_finalized_by_finalizing(
            round_key,
            creator,
            round_id,
            deadline_unix,
            bump,
            earlier,
        );
        if exists|i: int| 0 <= i < earlier.len() && #[trigger] earlier[i] is Finalize {
            let i = choose|i: int| 0 <= i < earlier.len() && #[trigger] earlier[i] is Finalize;
            assert(steps[i] is Finalize);
        }
        if exists|i: int| 0 <= i < steps.len() && #[trigger] steps[i] is Finalize {
            let i = choose|i: int| 0 <= i < steps.len() && #[trigger] steps[i] is Finalize;
            if i < earlier.len() {
                assert(earlier[i] is Finalize);
            }
        }
    }
}

} // verus!
