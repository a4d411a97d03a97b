//! What may happen to a round, and when.
use vstd::prelude::*;
use crate::accounts::{ClaimPayout, Donate, FinalizeRound, FundMatchingPool, RegisterProject};
use crate::claim;
use crate::create;
use crate::donate;
use crate::error::QfError;
use crate::finalize;
use crate::finalize::FinalizeError;
use crate::fund;
use crate::key;
use crate::key::Pubkey;
use crate::register;
use crate::state;
use crate::state::{Project, Round, MAX_NAME_LEN, MAX_PROJECTS};

verus! {

/// While a round takes donations or registrations it cannot be finalized: the
/// times for the one and for the other have no moment in common.
pub proof fn law_open_round_cannot_be_finalized(
    donation: Donate,
    amount: u64,
    registration: RegisterProject,
    name: Seq<char>,
    finalization: FinalizeRound,
    addresses: Seq<Seq<u8>>,
    now: i64,
)
    requires
        donation.round == finalization.round,
        registration.round == finalization.round,
        donate::donation_refusal(donation, amount, now) is None
            || register::registration_refusal(registration, name, now) is None,
    ensures
        finalize::finalize_refusal(finalization, addresses, now) == Some(
            FinalizeError::Program(QfError::DeadlineNotReached),
        ),
{
}

/// At the deadline itself a round takes neither donations nor registrations, and
/// cannot be finalized yet.
pub proof fn law_nothing_happens_at_the_deadline(
    donation: Donate,
    amount: u64,
    registration: RegisterProject,
    name: Seq<char>,
    finalization: FinalizeRound,
    addresses: Seq<Seq<u8>>,
)
    ensures
        donate::donation_refusal(donation, amount, donation.round.deadline_unix) is Some,
        register::registration_refusal(registration, name, registration.round.deadline_unix)
            is Some,
        finalize::finalize_refusal(finalization, addresses, finalization.round.deadline_unix)
            is Some,
{
}

/// A finalized round is closed for good: whatever comes and whenever, no project
/// is registered, no donation and no addition to the pool is taken, and it is
/// not finalized again. So the pool against which the shares are computed stays
/// as it is.
pub proof fn law_finalized_round_is_frozen(
    registration: RegisterProject,
    name: Seq<char>,
    donation: Donate,
    funding: FundMatchingPool,
    amount: u64,
    finalization: FinalizeRound,
    addresses: Seq<Seq<u8>>,
    now: i64,
)
    ensures
        registration.round.finalized ==> register::registration_refusal(registration, name, now)
            == Some(
            if state::name_len(name) > MAX_NAME_LEN {
                QfError::NameTooLong
            } else {
                QfError::RoundFinalized
            },
        ),
        donation.round.finalized && donation.project.round == donation.round_key && amount > 0
            ==> donate::donation_refusal(donation, amount, now) == Some(QfError::RoundFinalized),
        donation.round.finalized ==> donate::donation_refusal(donation, amount, now) is Some,
        funding.round.finalized && amount > 0 ==> fund::funding_refusal(funding, amount) == Some(
            QfError::RoundFinalized,
        ),
        funding.round.finalized ==> fund::funding_refusal(funding, amount) is Some,
        finalization.round.finalized ==> finalize::finalize_refusal(finalization, addresses, now)
            == Some(FinalizeError::Program(QfError::RoundFinalized)),
{
}

/// Finalizing leaves the round finalized, so it cannot be done twice.
pub proof fn law_round_is_finalized_once(
    before: FinalizeRound,
    after: FinalizeRound,
    again: FinalizeRound,
    addresses: Seq<Seq<u8>>,
    now: i64,
)
    requires
        finalize::is_finalized_from(before, after),
        again.round == after.round,
    ensures
        finalize::finalize_refusal(again, addresses, now) == Some(
            FinalizeError::Program(QfError::RoundFinalized),
        ),
{
}

/// Before it is finalized, a round pays nobody.
pub proof fn law_no_payout_before_finalizing(ctx: ClaimPayout, rent_exempt_minimum: u64)
    requires
        !ctx.round.finalized,
    ensures
        claim::claim_refusal(ctx, rent_exempt_minimum) is Some,
        ctx.project.owner == ctx.owner && ctx.project.round == ctx.round_key
            ==> claim::claim_refusal(ctx, rent_exempt_minimum) == Some(QfError::RoundNotFinalized),
{
}

/// A project is paid once: whoever claims for it again, and however much the
/// round has by then, is refused.
pub proof fn law_project_is_paid_once(
    first: ClaimPayout,
    minimum: u64,
    again: ClaimPayout,
    minimum_again: u64,
)
    requires
        claim::claim_refusal(first, minimum) is None,
        again.project == claim::claimed(first).project,
    ensures
        claim::claim_refusal(again, minimum_again) is Some,
        again.owner == first.owner && again.round_key == first.round_key && again.round
            == first.round ==> claim::claim_refusal(again, minimum_again) == Some(
            QfError::AlreadyClaimed,
        ),
{
}

/// Only its owner can claim for a project, and only from its own round.
pub proof fn law_only_the_owner_claims(ctx: ClaimPayout, rent_exempt_minimum: u64)
    requires
        ctx.owner != ctx.project.owner || ctx.round_key != ctx.project.round,
    ensures
        claim::claim_refusal(ctx, rent_exempt_minimum) == Some(QfError::InvalidProjectAccount),
{
}

/// A claim moves lamports from the round to the owner and makes none, and leaves
/// the round what it must keep.
pub proof fn law_claim_conserves_lamports(ctx: ClaimPayout, rent_exempt_minimum: u64)
    requires
        claim::claim_refusal(ctx, rent_exempt_minimum) is None,
        ctx.owner_lamports + claim::payout(ctx.round, ctx.project) <= u64::MAX,
    ensures
        claim::claimed(ctx).owner_lamports + claim::claimed(ctx).round_lamports
            == ctx.owner_lamports + ctx.round_lamports,
        claim::claimed(ctx).owner_lamports - ctx.owner_lamports == claim::payout(
            ctx.round,
            ctx.project,
        ),
        claim::claimed(ctx).round_lamports >= rent_exempt_minimum || claim::payout(
            ctx.round,
            ctx.project,
        ) == 0,
{
}

/// A round takes ten projects and no more.
pub proof fn law_full_round_takes_no_project(ctx: RegisterProject, name: Seq<char>, now: i64)
    requires
        ctx.round.project_count == MAX_PROJECTS,
    ensures
        register::registration_refusal(ctx, name, now) is Some,
        state::name_len(name) <= MAX_NAME_LEN && !ctx.round.finalized && now
            < ctx.round.deadline_unix ==> register::registration_refusal(ctx, name, now) == Some(
            QfError::InvalidProjectCount,
        ),
{
}

/// Registering a project leaves those before it where they are.
pub proof fn law_registration_order_is_kept(round: Round, owner: Pubkey, i: int)
    requires
        round.project_count < MAX_PROJECTS,
        0 <= i < round.project_count,
    ensures
        register::with_project(round, owner).owners()[i] == round.owners()[i],
        register::with_project(round, owner).owners()[round.project_count as int] == owner,
{
}

/// Registering the project of an owner who has none in the round leaves the
/// owners pairwise distinct.
pub proof fn law_owners_stay_distinct(round: Round, owner: Pubkey)
    requires
        round.project_count < MAX_PROJECTS,
        round.owners().no_duplicates(),
        !round.owners().contains(owner),
    ensures
        register::with_project(round, owner).owners().no_duplicates(),
{
    let before = round.owners();
    let after = register::with_project(round, owner).owners();
    assert(after =~= before.push(owner));
    assert forall|i: int, j: int| 0 <= i < after.len() && 0 <= j < after.len() && i != j implies
        after[i] != after[j] by {
        if i < before.len() {
            assert(before.contains(before[i]));
        }
        if j < before.len() {
            assert(before.contains(before[j]));
        }
    }
}

/// The slots that are not in use hold the zero address.
pub open spec fn free_slots_are_blank(round: Round) -> bool {
    forall|i: int|
        round.project_count <= i < 10 ==> #[trigger] round.project_owners[i] == key::zero_key()
}

/// In every state of a round the slots that are not in use hold the zero address.
pub proof fn law_free_slots_stay_blank(
    creator: Pubkey,
    round_id: u64,
    deadline_unix: i64,
    bump: u8,
    round: Round,
    owner: Pubkey,
    amount: u64,
    projects: Seq<Project>,
)
    requires
        free_slots_are_blank(round),
    ensures
        free_slots_are_blank(create::new_round(creator, round_id, deadline_unix, bump)),
        round.project_count < MAX_PROJECTS ==> free_slots_are_blank(
            register::with_project(round, owner),
        ),
        free_slots_are_blank(fund::funded(round, amount)),
        free_slots_are_blank(finalize::finalized(round, projects)),
{
}

/// The creator, the number, the deadline and the bump seed of a round stay as
/// they were when it was created.
pub proof fn law_terms_of_a_round_stay(
    round: Round,
    owner: Pubkey,
    amount: u64,
    projects: Seq<Project>,
)
    ensures
        same_terms(register::with_project(round, owner), round),
        same_terms(fund::funded(round, amount), round),
        same_terms(finalize::finalized(round, projects), round),
{
}

/// Two states of a round agree in what was fixed when it was created.
pub open spec fn same_terms(a: Round, b: Round) -> bool {
    &&& a.creator == b.creator
    &&& a.round_id == b.round_id
    &&& a.deadline_unix == b.deadline_unix
    &&& a.bump == b.bump
}

} // verus!
