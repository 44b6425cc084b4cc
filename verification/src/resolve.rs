//! Resolving overlapping findings by category.

use vstd::prelude::*;
use crate::lint::{lint_views, lint_views_push, Lint, LintKind, LintView};
use crate::span::Span;

verus! {

/// The weight of a category when two findings overlap; later variants
/// outweigh earlier ones.
#[derive(Clone, Copy, Debug, PartialEq, Eq, PartialOrd, Ord, Structural)]
pub enum LintKindPriority {
    Miscellaneous,
    Capitalization,
    Spelling,
    Style,
    Repetition,
    WordChoice,
}

impl LintKindPriority {
    /// The weight as a number, from 0 for `Miscellaneous` to 5 for
    /// `WordChoice`.
    pub open spec fn rank(&self) -> nat {
        match self {
            LintKindPriority::Miscellaneous => 0,
            LintKindPriority::Capitalization => 1,
            LintKindPriority::Spelling => 2,
            LintKindPriority::Style => 3,
            LintKindPriority::Repetition => 4,
            LintKindPriority::WordChoice => 5,
        }
    }

    /// The weight as a number.
    pub fn to_rank(&self) -> (r: u8)
        ensures
            r == self.rank(),
            r <= 5,
    {
        match self {
            LintKindPriority::Miscellaneous => 0,
            LintKindPriority::Capitalization => 1,
            LintKindPriority::Spelling => 2,
            LintKindPriority::Style => 3,
            LintKindPriority::Repetition => 4,
            LintKindPriority::WordChoice => 5,
        }
    }
}

/// The weight of each category.  Categories without a weight of their own
/// count as `Miscellaneous`.
pub open spec fn priority_of(kind: LintKind) -> LintKindPriority {
    match kind {
        LintKind::WordChoice => LintKindPriority::WordChoice,
        LintKind::Repetition => LintKindPriority::Repetition,
        LintKind::Style => LintKindPriority::Style,
        LintKind::Spelling => LintKindPriority::Spelling,
        LintKind::Capitalization => LintKindPriority::Capitalization,
        _ => LintKindPriority::Miscellaneous,
    }
}

/// Find the weight of a category.
pub fn get_priority(kind: &LintKind) -> (priority: LintKindPriority)
    ensures
        priority == priority_of(*kind),
{
    match kind {
        LintKind::WordChoice => LintKindPriority::WordChoice,
        LintKind::Repetition => LintKindPriority::Repetition,
        LintKind::Style => LintKindPriority::Style,
        LintKind::Spelling => LintKindPriority::Spelling,
        LintKind::Capitalization => LintKindPriority::Capitalization,
        _ => LintKindPriority::Miscellaneous,
    }
}

/// The rank of a finding's category.
pub open spec fn rank_of(lint: LintView) -> nat {
    priority_of(lint.lint_kind).rank()
}

/// The findings whose category has rank `rank`, in their given order.
pub open spec fn of_rank(lints: Seq<LintView>, rank: nat) -> Seq<LintView>
    decreases lints.len(),
{
    if lints.len() == 0 {
        Seq::empty()
    } else {
        let before = of_rank(lints.drop_last(), rank);
        if rank_of(lints.last()) == rank {
            before.push(lints.last())
        } else {
            before
        }
    }
}

/// The findings ordered by falling rank; findings of one rank keep their
/// given order.
pub open spec fn by_rank(lints: Seq<LintView>) -> Seq<LintView> {
    of_rank(lints, 5) + of_rank(lints, 4) + of_rank(lints, 3) + of_rank(lints, 2) + of_rank(
        lints,
        1,
    ) + of_rank(lints, 0)
}

/// Whether `span` overlaps the span of any of `accepted`.
pub open spec fn overlaps_any(accepted: Seq<LintView>, span: Span) -> bool {
    exists|i: int| 0 <= i < accepted.len() && span.spec_overlaps((#[trigger] accepted[i]).span)
}

/// The candidates that are accepted when each in turn is taken unless it
/// overlaps one taken before it.
pub open spec fn accepted(candidates: Seq<LintView>) -> Seq<LintView>
    decreases candidates.len(),
{
    if candidates.len() == 0 {
        Seq::empty()
    } else {
        let before = accepted(candidates.drop_last());
        if overlaps_any(before, candidates.last().span) {
            before
        } else {
            before.push(candidates.last())
        }
    }
}

/// The findings that survive: ordered by falling rank, each is kept unless
/// it overlaps one kept before it.
pub open spec fn resolved(lints: Seq<LintView>) -> Seq<LintView> {
    accepted(by_rank(lints))
}

/// No two of the findings overlap.
pub open spec fn pairwise_disjoint(lints: Seq<LintView>) -> bool {
    forall|i: int, j: int|
        0 <= i < lints.len() && 0 <= j < lints.len() && i != j ==> !(#[trigger] lints[i]).span.spec_overlaps(
            (#[trigger] lints[j]).span,
        )
}

/// Every finding of `part` is one of `whole`.
pub open spec fn drawn_from(part: Seq<LintView>, whole: Seq<LintView>) -> bool {
    forall|i: int| 0 <= i < part.len() ==> whole.contains(#[trigger] part[i])
}

/// The ranks never rise from one finding to the next.
pub open spec fn ranks_fall(lints: Seq<LintView>) -> bool {
    forall|i: int, j: int|
        0 <= i < j < lints.len() ==> rank_of(#[trigger] lints[i]) >= rank_of(#[trigger] lints[j])
}

/// Accepted findings do not overlap, and each is one of the candidates.
pub proof fn accepted_is_disjoint(candidates: Seq<LintView>)
    ensures
        pairwise_disjoint(accepted(candidates)),
        drawn_from(accepted(candidates), candidates),
    decreases candidates.len(),
{
    if candidates.len() > 0 {
        let rest = candidates.drop_last();
        accepted_is_disjoint(rest);
        let before = accepted(rest);
        let now = accepted(candidates);
        assert forall|i: int| 0 <= i < now.len() implies candidates.contains(#[trigger] now[i]) by {
            if i < before.len() {
                assert(now[i] == before[i]);
                let k = choose|k: int| 0 <= k < rest.len() && rest[k] == before[i];
                assert(candidates[k] == now[i]);
            } else {
                assert(now[i] == candidates.last());
                assert(candidates[candidates.len() - 1] == now[i]);
            }
        }
        if !overlaps_any(before, candidates.last().span) {
            assert forall|i: int, j: int|
                0 <= i < now.len() && 0 <= j < now.len() && i != j implies !(#[trigger] now[i]).span.spec_overlaps(
                (#[trigger] now[j]).span,
            ) by {
                if i < before.len() && j < before.len() {
                    assert(now[i] == before[i]);
                    assert(now[j] == before[j]);
                } else if i < before.len() {
                    assert(now[i] == before[i]);
                    assert(!candidates.last().span.spec_overlaps(before[i].span));
                } else {
                    assert(now[j] == before[j]);
                    assert(!candidates.last().span.spec_overlaps(before[j].span));
                }
            }
        }
    }
}

/// A candidate that was not accepted overlaps an accepted one that came
/// before it.
pub proof fn rejected_overlaps_accepted(candidates: Seq<LintView>, k: int)
    requires
        0 <= k < candidates.len(),
    ensures
        accepted(candidates).contains(candidates[k]) || overlaps_any(
            accepted(candidates),
            candidates[k].span,
        ),
    decreases candidates.len(),
{
    let rest = candidates.drop_last();
    let before = accepted(rest);
    let now = accepted(candidates);
    if k < candidates.len() - 1 {
        rejected_overlaps_accepted(rest, k);
        assert(rest[k] == candidates[k]);
        if before.contains(candidates[k]) {
            let i = choose|i: int| 0 <= i < before.len() && before[i] == candidates[k];
            assert(now[i] == candidates[k]);
        } else {
            let i = choose|i: int|
                0 <= i < before.len() && candidates[k].span.spec_overlaps(
                    (#[trigger] before[i]).span,
                );
            assert(now[i] == before[i]);
        }
    } else {
        if overlaps_any(before, candidates.last().span) {
            assert(now == before);
        } else {
            assert(now[now.len() - 1] == candidates[k]);
        }
    }
}

/// Findings of one rank, taken out of any list, all have that rank and
/// come from the list.
pub proof fn of_rank_has_rank(lints: Seq<LintView>, rank: nat)
    ensures
        forall|i: int|
            0 <= i < of_rank(lints, rank).len() ==> rank_of(#[trigger] of_rank(lints, rank)[i])
                == rank,
        drawn_from(of_rank(lints, rank), lints),
        of_rank(lints, rank).len() <= lints.len(),
    decreases lints.len(),
{
    if lints.len() > 0 {
        let rest = lints.drop_last();
        of_rank_has_rank(rest, rank);
        let before = of_rank(rest, rank);
        let now = of_rank(lints, rank);
        assert forall|i: int| 0 <= i < now.len() implies lints.contains(#[trigger] now[i]) by {
            if i < before.len() {
                assert(now[i] == before[i]);
                let k = choose|k: int| 0 <= k < rest.len() && rest[k] == before[i];
                assert(lints[k] == now[i]);
            } else {
                assert(lints[lints.len() - 1] == now[i]);
            }
        }
    }
}

/// Ordering by rank yields falling ranks and nothing that was not given.
pub proof fn by_rank_is_ordered(lints: Seq<LintView>)
    ensures
        ranks_fall(by_rank(lints)),
        drawn_from(by_rank(lints), lints),
{
    of_rank_has_rank(lints, 5);
    of_rank_has_rank(lints, 4);
    of_rank_has_rank(lints, 3);
    of_rank_has_rank(lints, 2);
    of_rank_has_rank(lints, 1);
    of_rank_has_rank(lints, 0);
}

/// Ordering by rank loses nothing: every finding given is among the
/// ordered ones, and there are as many as were given.
pub proof fn by_rank_keeps_all(lints: Seq<LintView>)
    ensures
        by_rank(lints).len() == lints.len(),
        forall|k: int| 0 <= k < lints.len() ==> by_rank(lints).contains(#[trigger] lints[k]),
    decreases lints.len(),
{
    rank_counts(lints);
    assert forall|k: int| 0 <= k < lints.len() implies by_rank(lints).contains(
        #[trigger] lints[k],
    ) by {
        let r = rank_of(lints[k]);
        of_rank_holds(lints, r, k);
        let part = of_rank(lints, r);
        let i = choose|i: int| 0 <= i < part.len() && part[i] == lints[k];
        let lead: nat = if r == 5 {
            0nat
        } else if r == 4 {
            of_rank(lints, 5).len()
        } else if r == 3 {
            of_rank(lints, 5).len() + of_rank(lints, 4).len()
        } else if r == 2 {
            of_rank(lints, 5).len() + of_rank(lints, 4).len() + of_rank(lints, 3).len()
        } else if r == 1 {
            of_rank(lints, 5).len() + of_rank(lints, 4).len() + of_rank(lints, 3).len() + of_rank(
                lints,
                2,
            ).len()
        } else {
            of_rank(lints, 5).len() + of_rank(lints, 4).len() + of_rank(lints, 3).len() + of_rank(
                lints,
                2,
            ).len() + of_rank(lints, 1).len()
        };
        assert(by_rank(lints)[lead + i] == lints[k]);
    }
}

/// The findings of the six ranks together are as many as the findings.
pub proof fn rank_counts(lints: Seq<LintView>)
    ensures
        of_rank(lints, 5).len() + of_rank(lints, 4).len() + of_rank(lints, 3).len() + of_rank(
            lints,
            2,
        ).len() + of_rank(lints, 1).len() + of_rank(lints, 0).len() == lints.len(),
    decreases lints.len(),
{
    if lints.len() > 0 {
        rank_counts(lints.drop_last());
    }
}

/// A finding is among those of its rank.
pub proof fn of_rank_holds(lints: Seq<LintView>, rank: nat, k: int)
    requires
        0 <= k < lints.len(),
        rank_of(lints[k]) == rank,
    ensures
        of_rank(lints, rank).contains(lints[k]),
    decreases lints.len(),
{
    let rest = lints.drop_last();
    let now = of_rank(lints, rank);
    if k < lints.len() - 1 {
        of_rank_holds(rest, rank, k);
        let before = of_rank(rest, rank);
        let i = choose|i: int| 0 <= i < before.len() && before[i] == rest[k];
        assert(now[i] == lints[k]);
    } else {
        assert(now[now.len() - 1] == lints[k]);
    }
}

/// A finding that does not survive overlaps one that does.
pub proof fn dropped_finding_overlaps_a_kept_one(lints: Seq<LintView>, k: int)
    requires
        0 <= k < lints.len(),
    ensures
        resolved(lints).contains(lints[k]) || overlaps_any(resolved(lints), lints[k].span),
{
    by_rank_keeps_all(lints);
    let sorted = by_rank(lints);
    let i = choose|i: int| 0 <= i < sorted.len() && sorted[i] == lints[k];
    rejected_overlaps_accepted(sorted, i);
}

/// Resolved findings do not overlap, and each is one of those given.
pub proof fn resolved_is_disjoint(lints: Seq<LintView>)
    ensures
        pairwise_disjoint(resolved(lints)),
        drawn_from(resolved(lints), lints),
{
    accepted_is_disjoint(by_rank(lints));
    by_rank_is_ordered(lints);
    let sorted = by_rank(lints);
    let out = resolved(lints);
    assert forall|i: int| 0 <= i < out.len() implies lints.contains(#[trigger] out[i]) by {
        let k = choose|k: int| 0 <= k < sorted.len() && sorted[k] == out[i];
        assert(lints.contains(sorted[k]));
    }
}

/// The findings of the six ranks together are the findings: each as
/// often as it was given.
pub proof fn rank_blocks_hold_all(lints: Seq<LintView>)
    ensures
        of_rank(lints, 5).to_multiset().add(of_rank(lints, 4).to_multiset()).add(
            of_rank(lints, 3).to_multiset(),
        ).add(of_rank(lints, 2).to_multiset()).add(of_rank(lints, 1).to_multiset()).add(
            of_rank(lints, 0).to_multiset(),
        ) == lints.to_multiset(),
    decreases lints.len(),
{
    broadcast use vstd::seq_lib::group_to_multiset_ensures;

    if lints.len() == 0 {
        assert(of_rank(lints, 5).to_multiset().add(of_rank(lints, 4).to_multiset()).add(
            of_rank(lints, 3).to_multiset(),
        ).add(of_rank(lints, 2).to_multiset()).add(of_rank(lints, 1).to_multiset()).add(
            of_rank(lints, 0).to_multiset(),
        ) =~= lints.to_multiset());
    } else {
        let rest = lints.drop_last();
        let last = lints.last();
        rank_blocks_hold_all(rest);
        assert(rest.push(last) =~= lints);
        assert(lints.to_multiset() =~= rest.to_multiset().insert(last));
        assert(of_rank(lints, 5).to_multiset().add(of_rank(lints, 4).to_multiset()).add(
            of_rank(lints, 3).to_multiset(),
        ).add(of_rank(lints, 2).to_multiset()).add(of_rank(lints, 1).to_multiset()).add(
            of_rank(lints, 0).to_multiset(),
        ) =~= of_rank(rest, 5).to_multiset().add(of_rank(rest, 4).to_multiset()).add(
            of_rank(rest, 3).to_multiset(),
        ).add(of_rank(rest, 2).to_multiset()).add(of_rank(rest, 1).to_multiset()).add(
            of_rank(rest, 0).to_multiset(),
        ).insert(last));
    }
}

/// Ordering by rank rearranges the findings: each is there as often as it
/// was given.
pub proof fn by_rank_is_a_rearrangement(lints: Seq<LintView>)
    ensures
        by_rank(lints).to_multiset() == lints.to_multiset(),
{
    rank_blocks_hold_all(lints);
    let b5 = of_rank(lints, 5);
    let b4 = of_rank(lints, 4);
    let b3 = of_rank(lints, 3);
    let b2 = of_rank(lints, 2);
    let b1 = of_rank(lints, 1);
    let b0 = of_rank(lints, 0);
    vstd::seq_lib::lemma_multiset_commutative(b5, b4);
    vstd::seq_lib::lemma_multiset_commutative(b5 + b4, b3);
    vstd::seq_lib::lemma_multiset_commutative(b5 + b4 + b3, b2);
    vstd::seq_lib::lemma_multiset_commutative(b5 + b4 + b3 + b2, b1);
    vstd::seq_lib::lemma_multiset_commutative(b5 + b4 + b3 + b2 + b1, b0);
}

/// Where no finding has rank `rank`, none is taken out for it.
pub proof fn of_rank_without(lints: Seq<LintView>, rank: nat)
    requires
        forall|i: int| 0 <= i < lints.len() ==> rank_of(#[trigger] lints[i]) != rank,
    ensures
        of_rank(lints, rank) == Seq::<LintView>::empty(),
    decreases lints.len(),
{
    if lints.len() > 0 {
        let rest = lints.drop_last();
        assert forall|i: int| 0 <= i < rest.len() implies rank_of(#[trigger] rest[i]) != rank by {
            assert(rest[i] == lints[i]);
        }
        of_rank_without(rest, rank);
        assert(rank_of(lints[lints.len() - 1]) != rank);
    }
}

/// Findings whose ranks already fall are left as they are.
pub proof fn by_rank_keeps_ordered(lints: Seq<LintView>)
    requires
        ranks_fall(lints),
    ensures
        by_rank(lints) == lints,
    decreases lints.len(),
{
    if lints.len() == 0 {
        assert(by_rank(lints) =~= lints);
    } else {
        let rest = lints.drop_last();
        let last = lints.last();
        let low = rank_of(last);
        assert(ranks_fall(rest)) by {
            assert forall|i: int, j: int| 0 <= i < j < rest.len() implies rank_of(
                #[trigger] rest[i],
            ) >= rank_of(#[trigger] rest[j]) by {
                assert(rest[i] == lints[i] && rest[j] == lints[j]);
            }
        }
        by_rank_keeps_ordered(rest);
        assert forall|r: nat| r < low implies #[trigger] of_rank(rest, r) == Seq::<
            LintView,
        >::empty() by {
            assert forall|i: int| 0 <= i < rest.len() implies rank_of(#[trigger] rest[i]) != r by {
                assert(rest[i] == lints[i]);
                assert(rank_of(lints[i]) >= rank_of(lints[lints.len() - 1]));
            }
            of_rank_without(rest, r);
        }
        assert(by_rank(lints) =~= by_rank(rest).push(last));
        assert(rest.push(last) =~= lints);
    }
}

/// Findings of which no two overlap are all accepted.
pub proof fn accepted_keeps_disjoint(candidates: Seq<LintView>)
    requires
        pairwise_disjoint(candidates),
    ensures
        accepted(candidates) == candidates,
    decreases candidates.len(),
{
    if candidates.len() == 0 {
        assert(accepted(candidates) =~= candidates);
    } else {
        let rest = candidates.drop_last();
        assert(pairwise_disjoint(rest)) by {
            assert forall|i: int, j: int|
                0 <= i < rest.len() && 0 <= j < rest.len() && i != j implies !(#[trigger] rest[i]).span.spec_overlaps(
                (#[trigger] rest[j]).span,
            ) by {
                assert(rest[i] == candidates[i] && rest[j] == candidates[j]);
            }
        }
        accepted_keeps_disjoint(rest);
        assert(!overlaps_any(rest, candidates.last().span)) by {
            assert forall|i: int| 0 <= i < rest.len() implies !candidates.last().span.spec_overlaps(
                (#[trigger] rest[i]).span,
            ) by {
                assert(rest[i] == candidates[i]);
                assert(candidates[candidates.len() - 1] == candidates.last());
            }
        }
        assert(rest.push(candidates.last()) =~= candidates);
    }
}

/// Accepting keeps the order of the candidates: where their ranks fall,
/// so do the ranks of the accepted.
pub proof fn accepted_keeps_order(candidates: Seq<LintView>)
    requires
        ranks_fall(candidates),
    ensures
        ranks_fall(accepted(candidates)),
        forall|i: int|
            0 <= i < accepted(candidates).len() && candidates.len() > 0 ==> rank_of(
                #[trigger] accepted(candidates)[i],
            ) >= rank_of(candidates.last()),
    decreases candidates.len(),
{
    if candidates.len() > 0 {
        let rest = candidates.drop_last();
        assert(ranks_fall(rest)) by {
            assert forall|i: int, j: int| 0 <= i < j < rest.len() implies rank_of(
                #[trigger] rest[i],
            ) >= rank_of(#[trigger] rest[j]) by {
                assert(rest[i] == candidates[i] && rest[j] == candidates[j]);
            }
        }
        accepted_keeps_order(rest);
        accepted_is_disjoint(rest);
        let before = accepted(rest);
        let now = accepted(candidates);
        assert forall|i: int| 0 <= i < before.len() implies rank_of(#[trigger] before[i])
            >= rank_of(candidates.last()) by {
            assert(rest.contains(before[i]));
            let k = choose|k: int| 0 <= k < rest.len() && rest[k] == before[i];
            assert(candidates[k] == before[i]);
            assert(rank_of(candidates[k]) >= rank_of(candidates[candidates.len() - 1]));
        }
        assert forall|i: int| 0 <= i < now.len() implies rank_of(#[trigger] now[i]) >= rank_of(
            candidates.last(),
        ) by {
            if i < before.len() {
                assert(now[i] == before[i]);
            }
        }
        assert forall|i: int, j: int| 0 <= i < j < now.len() implies rank_of(#[trigger] now[i])
            >= rank_of(#[trigger] now[j]) by {
            assert(now[i] == before[i]);
            if j < before.len() {
                assert(now[j] == before[j]);
            }
        }
    }
}

/// Resolving what has been resolved changes nothing.
pub proof fn resolving_twice_changes_nothing(lints: Seq<LintView>)
    ensures
        resolved(resolved(lints)) == resolved(lints),
{
    by_rank_is_ordered(lints);
    accepted_keeps_order(by_rank(lints));
    accepted_is_disjoint(by_rank(lints));
    by_rank_keeps_ordered(resolved(lints));
    accepted_keeps_disjoint(resolved(lints));
}

fn push_of_rank(lints: &Vec<Lint>, rank: u8, out: &mut Vec<Lint>)
    ensures
        lint_views(final(out)@) == lint_views(old(out)@) + of_rank(lint_views(lints@), rank as nat),
{
    let ghost views = lint_views(lints@);
    let ghost lead = lint_views(out@);
    let mut i: usize = 0;
    assert(lead + of_rank(views.take(0), rank as nat) =~= lead);
    while i < lints.len()
        invariant
            i <= lints.len(),
            views == lint_views(lints@),
            lint_views(out@) == lead + of_rank(views.take(i as int), rank as nat),
        decreases lints.len() - i,
    {
        proof {
            assert(views.take(i + 1).drop_last() == views.take(i as int));
            assert(views.take(i + 1).last() == lints@[i as int]@);
        }
        if get_priority(&lints[i].lint_kind).to_rank() == rank {
            let ghost given = out@;
            let copy = lints[i].duplicate();
            out.push(copy);
            proof {
                lint_views_push(given, copy);
                assert(lead + of_rank(views.take(i as int), rank as nat).push(copy@) =~= (lead
                    + of_rank(views.take(i as int), rank as nat)).push(copy@));
            }
        }
        i += 1;
    }
    assert(views.take(i as int) == views);
}

/// Order findings by falling rank of their category, keeping the given
/// order within a rank.
pub fn sort_by_rank(lints: &Vec<Lint>) -> (sorted: Vec<Lint>)
    ensures
        lint_views(sorted@) == by_rank(lint_views(lints@)),
{
    let mut sorted: Vec<Lint> = Vec::new();
    assert(lint_views(sorted@) =~= Seq::<LintView>::empty());
    push_of_rank(lints, 5, &mut sorted);
    push_of_rank(lints, 4, &mut sorted);
    push_of_rank(lints, 3, &mut sorted);
    push_of_rank(lints, 2, &mut sorted);
    push_of_rank(lints, 1, &mut sorted);
    push_of_rank(lints, 0, &mut sorted);
    assert(lint_views(sorted@) =~= by_rank(lint_views(lints@)));
    sorted
}

fn overlaps_one_of(accepted: &Vec<Lint>, span: Span) -> (b: bool)
    ensures
        b == overlaps_any(lint_views(accepted@), span),
{
    let mut i: usize = 0;
    while i < accepted.len()
        invariant
            i <= accepted.len(),
            forall|k: int|
                0 <= k < i ==> !span.spec_overlaps((#[trigger] lint_views(accepted@)[k]).span),
        decreases accepted.len() - i,
    {
        if span.overlaps_with(accepted[i].span) {
            assert(span.spec_overlaps(lint_views(accepted@)[i as int].span));
            return true;
        }
        i += 1;
    }
    false
}

/// Take each candidate in turn unless it overlaps one taken before it.
pub fn accept_in_order(candidates: &Vec<Lint>) -> (out: Vec<Lint>)
    ensures
        lint_views(out@) == accepted(lint_views(candidates@)),
{
    let ghost views = lint_views(candidates@);
    let mut out: Vec<Lint> = Vec::new();
    let mut i: usize = 0;
    assert(lint_views(out@) =~= Seq::<LintView>::empty());
    while i < candidates.len()
        invariant
            i <= candidates.len(),
            views == lint_views(candidates@),
            lint_views(out@) == accepted(views.take(i as int)),
        decreases candidates.len() - i,
    {
        proof {
            assert(views.take(i + 1).drop_last() == views.take(i as int));
            assert(views.take(i + 1).last() == candidates@[i as int]@);
        }
        if !overlaps_one_of(&out, candidates[i].span) {
            let ghost given = out@;
            let copy = candidates[i].duplicate();
            out.push(copy);
            proof {
                lint_views_push(given, copy);
            }
        }
        i += 1;
    }
    assert(views.take(i as int) == views);
    out
}

/// Resolve overlaps: findings of a weightier category win over lighter
/// ones, and among equals the one reported first wins.  What is returned
/// holds no two findings that overlap.
pub fn resolve_conflicts(lints: Vec<Lint>) -> (out: Vec<Lint>)
    ensures
        lint_views(out@) == resolved(lint_views(lints@)),
        pairwise_disjoint(lint_views(out@)),
        drawn_from(lint_views(out@), lint_views(lints@)),
{
    proof {
        resolved_is_disjoint(lint_views(lints@));
    }
    let sorted = sort_by_rank(&lints);
    accept_in_order(&sorted)
}

} // verus!
