//! What the figures of a project say about its donors.
//!
//! A project keeps totals only. The laws here tie them to the contributions
//! that they stand for: one for each donor, with all that the donor has given.
use vstd::prelude::*;
use crate::accounts::Donate;
use crate::donate;
use crate::finalize;
use crate::key::Pubkey;
use crate::register;
use crate::sqrt;
use crate::state::{Contribution, Project};
use crate::sums;

verus! {

/// All that was given.
pub open spec fn given(contributions: Seq<Contribution>) -> int {
    sums::sum(contributions, |c: Contribution| c.amount as int)
}

/// The sum of the roots of what each donor has given in all.
pub open spec fn roots(contributions: Seq<Contribution>) -> int {
    sums::sum(contributions, |c: Contribution| donate::root(c.amount as int))
}

/// There is one contribution for each donor, and each is of something.
pub open spec fn one_per_donor(project_key: Pubkey, contributions: Seq<Contribution>) -> bool {
    &&& forall|i: int|
        0 <= i < contributions.len() ==> (#[trigger] contributions[i]).project == project_key
            && contributions[i].amount > 0
    &&& forall|i: int, j: int|
        0 <= i < j < contributions.len() ==> (#[trigger] contributions[i]).donor != (
        #[trigger] contributions[j]).donor
}

/// The figures of the project are those of the contributions.
pub open spec fn books_match(
    project_key: Pubkey,
    project: Project,
    contributions: Seq<Contribution>,
) -> bool {
    &&& one_per_donor(project_key, contributions)
    &&& project.total_donated == given(contributions)
    &&& project.sqrt_sum == roots(contributions)
    &&& project.donor_count == contributions.len()
}

/// A project that was just registered has no contributions.
pub proof fn law_new_project_has_empty_books(
    project_key: Pubkey,
    round: Pubkey,
    owner: Pubkey,
    name: String,
    bump: u8,
)
    ensures
        books_match(
            project_key,
            register::new_project(round, owner, name, bump),
            Seq::<Contribution>::empty(),
        ),
{
}

/// The first donation of a donor adds a contribution, and the figures keep
/// matching: the donor is counted, once.
pub proof fn law_first_donation_keeps_books(
    ctx: Donate,
    amount: u64,
    now: i64,
    contributions: Seq<Contribution>,
)
    requires
        books_match(ctx.project_key, ctx.project, contributions),
        donate::is_new_donor(ctx.contribution),
        forall|i: int| 0 <= i < contributions.len() ==> (#[trigger] contributions[i]).donor
            != ctx.donor,
        donate::donation_refusal(ctx, amount, now) is None,
    ensures
        books_match(
            ctx.project_key,
            donate::project_after(ctx, amount),
            contributions.push(donate::contribution_after(ctx, amount)),
        ),
{
    let c = donate::contribution_after(ctx, amount);
    let after = contributions.push(c);
    sums::lemma_sum_push(contributions, c, |c: Contribution| c.amount as int);
    sums::lemma_sum_push(contributions, c, |c: Contribution| donate::root(c.amount as int));
    sqrt::lemma_root_of_zero();
    assert forall|i: int| 0 <= i < after.len() implies (#[trigger] after[i]).project
        == ctx.project_key && after[i].amount > 0 by {
        if i < contributions.len() {
            assert(after[i] == contributions[i]);
        }
    }
    assert forall|i: int, j: int| 0 <= i < j < after.len() implies (#[trigger] after[i]).donor != (
    #[trigger] after[j]).donor by {
        assert(after[i] == contributions[i]);
        if j < contributions.len() {
            assert(after[j] == contributions[j]);
        }
    }
}

/// Another donation of the same donor changes that donor's contribution, and
/// the figures keep matching: the donor is not counted again.
pub proof fn law_next_donation_keeps_books(
    ctx: Donate,
    amount: u64,
    now: i64,
    contributions: Seq<Contribution>,
    i: int,
)
    requires
        books_match(ctx.project_key, ctx.project, contributions),
        0 <= i < contributions.len(),
        contributions[i] == ctx.contribution,
        ctx.contribution.donor == ctx.donor,
        donate::donation_refusal(ctx, amount, now) is None,
    ensures
        books_match(
            ctx.project_key,
            donate::project_after(ctx, amount),
            contributions.update(i, donate::contribution_after(ctx, amount)),
        ),
{
    let c = donate::contribution_after(ctx, amount);
    let after = contributions.update(i, c);
    sums::lemma_sum_update(contributions, i, c, |c: Contribution| c.amount as int);
    sums::lemma_sum_update(
        contributions,
        i,
        c,
        |c: Contribution| donate::root(c.amount as int),
    );
    sqrt::law_floor_sqrt_is_monotone(
        ctx.contribution.amount as nat,
        (ctx.contribution.amount + amount) as nat,
    );
    assert forall|k: int| 0 <= k < after.len() implies (#[trigger] after[k]).project
        == ctx.project_key && after[k].amount > 0 by {
        if k != i {
            assert(after[k] == contributions[k]);
        }
    }
    assert forall|k: int, j: int| 0 <= k < j < after.len() implies (#[trigger] after[k]).donor != (
    #[trigger] after[j]).donor by {
        assert(after[k].donor == contributions[k].donor);
        assert(after[j].donor == contributions[j].donor);
    }
}

/// The roots never exceed what was given, so the sum of the roots fits in 64
/// bits, and the score in 128.
pub proof fn law_score_always_fits(
    project_key: Pubkey,
    project: Project,
    contributions: Seq<Contribution>,
)
    requires
        books_match(project_key, project, contributions),
    ensures
        project.sqrt_sum <= project.total_donated,
        finalize::score(project) <= u128::MAX,
{
    assert forall|i: int| 0 <= i < contributions.len() implies donate::root(
        (#[trigger] contributions[i]).amount as int,
    ) <= contributions[i].amount as int by {
        let n = contributions[i].amount as nat;
        sqrt::lemma_root_below(n);
    }
    sums::lemma_sum_ordered(
        contributions,
        contributions,
        |c: Contribution| donate::root(c.amount as int),
        |c: Contribution| c.amount as int,
    );
    let s = project.sqrt_sum as nat;
    assert(s * s <= 0xffff_ffff_ffff_ffff * 0xffff_ffff_ffff_ffff) by (nonlinear_arith)
        requires
            s <= 0xffff_ffff_ffff_ffff,
    ;
}

/// The only figures of a project that can overflow are the total and the number
/// of donors: a donation is refused for an overflow just where one of them
/// does.
pub proof fn law_only_totals_overflow(ctx: Donate, amount: u64, contributions: Seq<Contribution>)
    requires
        books_match(ctx.project_key, ctx.project, contributions),
        donate::is_new_donor(ctx.contribution) || contributions.contains(ctx.contribution),
    ensures
        donate::donation_overflows(ctx, amount) <==> ctx.project.total_donated + amount > u64::MAX
            || donate::is_new_donor(ctx.contribution) && ctx.project.donor_count == u32::MAX,
{
    law_score_always_fits(ctx.project_key, ctx.project, contributions);
    sums::lemma_sum_covers(contributions, |c: Contribution| c.amount as int);
    if contributions.contains(ctx.contribution) {
        let i = contributions.index_of(ctx.contribution);
        assert((|c: Contribution| c.amount as int)(contributions[i]) <= given(contributions));
    }
    if ctx.contribution.amount + amount <= u64::MAX {
        sqrt::lemma_root_fits((ctx.contribution.amount + amount) as u64);
    }
}

/// Splitting a donation gains nothing: where a donor may give `a` and then `b`,
/// the donor may as well give `a + b` at once, and all accounts end up the same.
pub proof fn law_splitting_a_donation_gains_nothing(
    ctx: Donate,
    a: u64,
    b: u64,
    now: i64,
    later: i64,
)
    requires
        donate::donation_refusal(ctx, a, now) is None,
        donate::donation_refusal(donate::donated(ctx, a), b, later) is None,
    ensures
        a + b <= u64::MAX,
        donate::donation_refusal(ctx, (a + b) as u64, now) is None,
        donate::donated(donate::donated(ctx, a), b) == donate::donated(ctx, (a + b) as u64),
{
    let old = ctx.contribution.amount as nat;
    sqrt::law_floor_sqrt_is_monotone(old, old + a as nat);
    sqrt::law_floor_sqrt_is_monotone(old + a as nat, old + a as nat + b as nat);
}

/// The accounts after a donor has given each of the parts, one after the other.
pub open spec fn donated_in_parts(ctx: Donate, parts: Seq<u64>) -> Donate
    decreases parts.len(),
{
    if parts.len() == 0 {
        ctx
    } else {
        donate::donated(donated_in_parts(ctx, parts.drop_last()), parts.last())
    }
}

/// A donor may give each of the parts, one after the other, at these times.
pub open spec fn parts_are_accepted(ctx: Donate, parts: Seq<u64>, times: Seq<i64>) -> bool {
    forall|i: int|
        0 <= i < parts.len() ==> donate::donation_refusal(
            #[trigger] donated_in_parts(ctx, parts.take(i)),
            parts[i],
            times[i],
        ) is None
}

/// All of the parts together.
pub open spec fn whole(parts: Seq<u64>) -> int {
    sums::sum(parts, |part: u64| part as int)
}

/// Splitting a donation into any number of parts gains nothing: where a donor
/// may give the parts, the donor may as well give the whole at once, and all
/// accounts end up the same.
pub proof fn law_splitting_into_many_parts_gains_nothing(
    ctx: Donate,
    parts: Seq<u64>,
    times: Seq<i64>,
)
    requires
        parts.len() > 0,
        parts_are_accepted(ctx, parts, times),
    ensures
        0 < whole(parts) <= u64::MAX,
        donate::donation_refusal(ctx, whole(parts) as u64, times[0]) is None,
        donated_in_parts(ctx, parts) == donate::donated(ctx, whole(parts) as u64),
    decreases parts.len(),
{
    let n = parts.len() as int;
    let rest = parts.drop_last();
    assert(parts.take(n - 1) =~= rest);
    let before = donated_in_parts(ctx, parts.take(n - 1));
    assert(donate::donation_refusal(before, parts[n - 1], times[n - 1]) is None);
    if n > 1 {
        assert forall|i: int| 0 <= i < rest.len() implies donate::donation_refusal(
            #[trigger] donated_in_parts(ctx, rest.take(i)),
            rest[i],
            times[i],
        ) is None by {
            assert(rest.take(i) =~= parts.take(i));
            assert(donate::donation_refusal(
                donated_in_parts(ctx, parts.take(i)),
                parts[i],
                times[i],
            ) is None);
        }
        law_splitting_into_many_parts_gains_nothing(ctx, rest, times);
        law_splitting_a_donation_gains_nothing(
            ctx,
            whole(rest) as u64,
            parts[n - 1],
            times[0],
            times[n - 1],
        );
    } else {
        assert(rest =~= Seq::<u64>::empty());
        assert(whole(rest) == 0);
    }
}

/// The accounts of a donation, with the project in another state.
pub open spec fn with_project(ctx: Donate, project: Project) -> Donate {
    Donate { project, ..ctx }
}

/// It does not matter which of two donors gives first.
pub proof fn law_donors_may_come_in_any_order(first: Donate, a: u64, second: Donate, b: u64)
    requires
        first.project == second.project,
        !donate::donation_overflows(first, a),
        !donate::donation_overflows(second, b),
        !donate::donation_overflows(with_project(second, donate::project_after(first, a)), b),
        !donate::donation_overflows(with_project(first, donate::project_after(second, b)), a),
    ensures
        donate::project_after(with_project(second, donate::project_after(first, a)), b)
            == donate::project_after(with_project(first, donate::project_after(second, b)), a),
{
    sqrt::law_floor_sqrt_is_monotone(
        first.contribution.amount as nat,
        (first.contribution.amount + a) as nat,
    );
    sqrt::law_floor_sqrt_is_monotone(
        second.contribution.amount as nat,
        (second.contribution.amount + b) as nat,
    );
}

/// What was given is worth at least the root of the total: the more evenly it
/// comes from many donors, the more, and from a single donor just that.
pub proof fn law_roots_reach_root_of_total(contributions: Seq<Contribution>)
    ensures
        donate::root(given(contributions)) <= roots(contributions),
        contributions.len() == 1 ==> donate::root(given(contributions)) == roots(contributions),
        given(contributions) >= 0,
    decreases contributions.len(),
{
    if contributions.len() == 0 {
        sqrt::lemma_root_of_zero();
    } else {
        let rest = contributions.drop_last();
        law_roots_reach_root_of_total(rest);
        sqrt::law_floor_sqrt_is_subadditive(
            given(rest) as nat,
            contributions.last().amount as nat,
        );
    }
}

/// Breadth counts: of two projects that raised the same, one that has it from a
/// single donor does not score higher than the other.
pub proof fn law_breadth_never_hurts(
    broad_key: Pubkey,
    broad: Project,
    broad_contributions: Seq<Contribution>,
    single_key: Pubkey,
    single: Project,
    single_contributions: Seq<Contribution>,
)
    requires
        books_match(broad_key, broad, broad_contributions),
        books_match(single_key, single, single_contributions),
        single.donor_count == 1,
        broad.total_donated == single.total_donated,
    ensures
        finalize::score(single) <= finalize::score(broad),
{
    law_roots_reach_root_of_total(broad_contributions);
    law_roots_reach_root_of_total(single_contributions);
    sqrt::lemma_mul_ordered(
        single.sqrt_sum as nat,
        broad.sqrt_sum as nat,
        single.sqrt_sum as nat,
        broad.sqrt_sum as nat,
    );
}

/// Many small donations beat one large one: a project with four donors or more
/// who each gave the same scores higher than one that raised as much from a
/// single donor.
pub proof fn law_many_small_beat_one_large(
    broad_key: Pubkey,
    broad: Project,
    broad_contributions: Seq<Contribution>,
    single_key: Pubkey,
    single: Project,
    single_contributions: Seq<Contribution>,
    each: u64,
)
    requires
        books_match(broad_key, broad, broad_contributions),
        books_match(single_key, single, single_contributions),
        single.donor_count == 1,
        broad.total_donated == single.total_donated,
        broad.donor_count >= 4,
        forall|i: int| 0 <= i < broad_contributions.len() ==> (
        #[trigger] broad_contributions[i]).amount == each,
    ensures
        finalize::score(single) < finalize::score(broad),
{
    let n = broad_contributions.len();
    let r = sqrt::floor_sqrt(each as nat);
    let s = single.sqrt_sum as nat;
    let f = |c: Contribution| c.amount as int;
    let g = |c: Contribution| donate::root(c.amount as int);
    assert forall|i: int| 0 <= i < n implies f(#[trigger] broad_contributions[i]) == each as int by {
        assert(broad_contributions[i].amount == each);
    }
    assert forall|i: int| 0 <= i < n implies g(#[trigger] broad_contributions[i]) == r as int by {
        assert(broad_contributions[i].amount == each);
    }
    sums::lemma_sum_constant(broad_contributions, f, each as int);
    sums::lemma_sum_constant(broad_contributions, g, r as int);
    law_roots_reach_root_of_total(single_contributions);
    assert(broad_contributions[0].amount > 0);
    sqrt::lemma_root_of_positive(each as nat);
    sqrt::lemma_floor_sqrt(each as nat);
    sqrt::lemma_floor_sqrt(n * each as nat);
    assert(s * s <= n * each);
    assert((n * r) * (n * r) > n * each) by (nonlinear_arith)
        requires
            n >= 4,
            r >= 1,
            each < (r + 1) * (r + 1),
    ;
    assert(broad.sqrt_sum == n * r);
}

/// What a donor gives in any number of parts adds up, on the project and on the
/// donor's contribution. The donor, the round and the rest of the project stay,
/// and the donor is counted at most once.
pub proof fn law_donations_add_up(ctx: Donate, parts: Seq<u64>, times: Seq<i64>)
    requires
        parts_are_accepted(ctx, parts, times),
    ensures
        ({
            let after = donated_in_parts(ctx, parts);
            let all = sums::sum(parts, |part: u64| part as int);
            &&& after.project.total_donated == ctx.project.total_donated + all
            &&& after.contribution.amount == ctx.contribution.amount + all
            &&& ctx.project.donor_count <= after.project.donor_count <= ctx.project.donor_count + 1
            &&& after.project.round == ctx.project.round
            &&& after.project.owner == ctx.project.owner
            &&& after.project.name == ctx.project.name
            &&& after.donor == ctx.donor
            &&& after.round == ctx.round
        }),
{
    if parts.len() > 0 {
        law_splitting_into_many_parts_gains_nothing(ctx, parts, times);
        donate::law_donation_books_what_is_moved(ctx, whole(parts) as u64, times[0]);
    }
}

} // verus!
