//! Putting the review queue together: each semantic hunk meets its analysis, and
//! the queue is ordered by risk, high first.

use vstd::prelude::*;
use crate::models::{
    risk_rank, Analysis, AnalysisView, ReviewItem, ReviewItemView, SemanticHunk, SemanticHunkView,
};
use crate::review::items_view;

verus! {

/// The last analysis with the given id (a later one hides an earlier one).
pub open spec fn analysis_for(an: Seq<AnalysisView>, id: Seq<char>) -> Option<AnalysisView>
    decreases an.len(),
{
    if an.len() == 0 {
        None
    } else if an.last().id == id {
        Some(an.last())
    } else {
        analysis_for(an.drop_last(), id)
    }
}

/// A fresh, undecided review item.
pub open spec fn new_item(s: SemanticHunkView, a: AnalysisView) -> ReviewItemView {
    ReviewItemView { semantic: s, analysis: a, decision: None, reject_reason: None }
}

/// The semantic hunks that have an analysis, each with it, in their own order.
pub open spec fn joined(sem: Seq<SemanticHunkView>, an: Seq<AnalysisView>) -> Seq<ReviewItemView>
    decreases sem.len(),
{
    if sem.len() == 0 {
        seq![]
    } else {
        let rest = joined(sem.drop_last(), an);
        match analysis_for(an, sem.last().id) {
            Some(a) => rest.push(new_item(sem.last(), a)),
            None => rest,
        }
    }
}

/// The items of one risk rank, in their order.
pub open spec fn of_rank(items: Seq<ReviewItemView>, k: nat) -> Seq<ReviewItemView>
    decreases items.len(),
{
    if items.len() == 0 {
        seq![]
    } else if risk_rank(items.last().analysis.risk) == k {
        of_rank(items.drop_last(), k).push(items.last())
    } else {
        of_rank(items.drop_last(), k)
    }
}

/// The items sorted by risk, high first; items of equal risk keep their order (a stable sort).
pub open spec fn by_risk(items: Seq<ReviewItemView>) -> Seq<ReviewItemView> {
    of_rank(items, 0) + of_rank(items, 1) + of_rank(items, 2)
}

/// The review queue: every semantic hunk that has an analysis, with it, undecided,
/// sorted by risk with high risk first.
pub open spec fn review_queue(sem: Seq<SemanticHunkView>, an: Seq<AnalysisView>) -> Seq<ReviewItemView> {
    by_risk(joined(sem, an))
}

proof fn lemma_of_rank_ranks(items: Seq<ReviewItemView>, k: nat)
    ensures
        forall|i: int|
            0 <= i < of_rank(items, k).len() ==> risk_rank((#[trigger] of_rank(items, k)[i]).analysis.risk) == k,
    decreases items.len(),
{
    if items.len() > 0 {
        lemma_of_rank_ranks(items.drop_last(), k);
    }
}

proof fn lemma_of_rank_concat(a: Seq<ReviewItemView>, b: Seq<ReviewItemView>, k: nat)
    ensures
        of_rank(a + b, k) == of_rank(a, k) + of_rank(b, k),
    decreases b.len(),
{
    if b.len() == 0 {
        assert(a + b =~= a);
        assert(of_rank(a, k) + of_rank(b, k) =~= of_rank(a, k));
    } else {
        assert((a + b).drop_last() =~= a + b.drop_last());
        assert((a + b).last() == b.last());
        lemma_of_rank_concat(a, b.drop_last(), k);
        assert(of_rank(a, k) + of_rank(b.drop_last(), k).push(b.last()) =~= (of_rank(a, k) + of_rank(
            b.drop_last(),
            k,
        )).push(b.last()));
    }
}

proof fn lemma_of_rank_of_rank(items: Seq<ReviewItemView>, j: nat, k: nat)
    ensures
        of_rank(of_rank(items, j), k) == if j == k { of_rank(items, k) } else { Seq::<ReviewItemView>::empty() },
    decreases items.len(),
{
    if items.len() > 0 {
        lemma_of_rank_of_rank(items.drop_last(), j, k);
        let r = of_rank(items.drop_last(), j);
        if risk_rank(items.last().analysis.risk) == j {
            assert(r.push(items.last()).drop_last() =~= r);
        }
    } else {
        assert(of_rank(of_rank(items, j), k) =~= Seq::<ReviewItemView>::empty());
    }
}

proof fn lemma_of_rank_lengths(items: Seq<ReviewItemView>)
    ensures
        of_rank(items, 0).len() + of_rank(items, 1).len() + of_rank(items, 2).len() == items.len(),
    decreases items.len(),
{
    if items.len() > 0 {
        lemma_of_rank_lengths(items.drop_last());
    }
}

/// The review queue is ordered by risk, high before medium before low; it holds every
/// item of the join, none twice, and items of equal risk keep their order (the sort is
/// stable); every item is undecided.
pub proof fn law_queue_order(sem: Seq<SemanticHunkView>, an: Seq<AnalysisView>)
    ensures
        forall|i: int, j: int|
            0 <= i < j < review_queue(sem, an).len() ==> risk_rank(
                (#[trigger] review_queue(sem, an)[i]).analysis.risk,
            ) <= risk_rank((#[trigger] review_queue(sem, an)[j]).analysis.risk),
        review_queue(sem, an).len() == joined(sem, an).len(),
        forall|k: nat| #[trigger] of_rank(review_queue(sem, an), k) == of_rank(joined(sem, an), k),
        forall|i: int|
            0 <= i < review_queue(sem, an).len() ==> (#[trigger] review_queue(sem, an)[i]).decision is None,
{
    let x = joined(sem, an);
    let q = review_queue(sem, an);
    let a = of_rank(x, 0);
    let b = of_rank(x, 1);
    let c = of_rank(x, 2);
    lemma_of_rank_ranks(x, 0);
    lemma_of_rank_ranks(x, 1);
    lemma_of_rank_ranks(x, 2);
    lemma_of_rank_lengths(x);
    assert forall|i: int, j: int| 0 <= i < j < q.len() implies risk_rank(
        (#[trigger] q[i]).analysis.risk,
    ) <= risk_rank((#[trigger] q[j]).analysis.risk) by {
        if i < a.len() {
            assert(q[i] == a[i]);
        } else if i < a.len() + b.len() {
            assert(q[i] == b[i - a.len()]);
            if j < a.len() + b.len() {
                assert(q[j] == b[j - a.len()]);
            } else {
                assert(q[j] == c[j - a.len() - b.len()]);
            }
        } else {
            assert(q[i] == c[i - a.len() - b.len()]);
            assert(q[j] == c[j - a.len() - b.len()]);
        }
    }
    assert forall|k: nat| #[trigger] of_rank(q, k) == of_rank(x, k) by {
        lemma_of_rank_concat(a + b, c, k);
        lemma_of_rank_concat(a, b, k);
        lemma_of_rank_of_rank(x, 0, k);
        lemma_of_rank_of_rank(x, 1, k);
        lemma_of_rank_of_rank(x, 2, k);
        if k > 2 {
            lemma_of_rank_ranks(x, k);
            if of_rank(x, k).len() > 0 {
                assert(risk_rank(of_rank(x, k)[0].analysis.risk) == k);
            }
            assert(of_rank(x, k) =~= Seq::<ReviewItemView>::empty());
        }
        assert(of_rank(q, k) =~= of_rank(x, k));
    }
    lemma_joined_undecided(sem, an);
    lemma_of_rank_undecided(x, 0);
    lemma_of_rank_undecided(x, 1);
    lemma_of_rank_undecided(x, 2);
    assert forall|i: int| 0 <= i < q.len() implies (#[trigger] q[i]).decision is None by {
        if i < a.len() {
            assert(q[i] == a[i]);
        } else if i < a.len() + b.len() {
            assert(q[i] == b[i - a.len()]);
        } else {
            assert(q[i] == c[i - a.len() - b.len()]);
        }
    }
}

proof fn lemma_joined_undecided(sem: Seq<SemanticHunkView>, an: Seq<AnalysisView>)
    ensures
        forall|i: int| 0 <= i < joined(sem, an).len() ==> (#[trigger] joined(sem, an)[i]).decision is None,
    decreases sem.len(),
{
    if sem.len() > 0 {
        lemma_joined_undecided(sem.drop_last(), an);
    }
}

proof fn lemma_of_rank_undecided(items: Seq<ReviewItemView>, k: nat)
    requires
        forall|i: int| 0 <= i < items.len() ==> (#[trigger] items[i]).decision is None,
    ensures
        forall|i: int| 0 <= i < of_rank(items, k).len() ==> (#[trigger] of_rank(items, k)[i]).decision is None,
    decreases items.len(),
{
    if items.len() > 0 {
        assert forall|i: int| 0 <= i < items.drop_last().len() implies (#[trigger] items.drop_last()[i]).decision is None by {
            assert(items.drop_last()[i] == items[i]);
        }
        lemma_of_rank_undecided(items.drop_last(), k);
    }
}

/// The index of the last analysis with the given id: the answer of a map from id to
/// analysis filled in order (a later analysis replaces an earlier one), found by a scan
/// from the end, since vstd's `HashMap` specification is of no use for `String` keys.
fn find_analysis(an: &[Analysis], id: &String) -> (r: Option<usize>)
    ensures
        match r {
            Some(j) => j < an.len() && analysis_for(an@.map_values(|a: Analysis| a@), id@) == Some(
                an@[j as int]@,
            ),
            None => analysis_for(an@.map_values(|a: Analysis| a@), id@) is None,
        },
{
    let ghost all = an@.map_values(|a: Analysis| a@);
    let mut k = an.len();
    assert(all.take(k as int) == all);
    while k > 0
        invariant
            k <= an.len(),
            all == an@.map_values(|a: Analysis| a@),
            analysis_for(all, id@) == analysis_for(all.take(k as int), id@),
        decreases k,
    {
        assert(all.take(k as int).last() == an@[k - 1]@);
        assert(all.take(k as int).drop_last() == all.take(k - 1));
        if an[k - 1].id == *id {
            return Some(k - 1);
        }
        k = k - 1;
    }
    None
}

fn push_rank(out: &mut Vec<ReviewItem>, items: &Vec<ReviewItem>, k: u8)
    ensures
        items_view(final(out)@) == items_view(old(out)@) + of_rank(items_view(items@), k as nat),
{
    let ghost all = items_view(items@);
    let ghost start = items_view(out@);
    let mut i: usize = 0;
    assert(all.take(0) =~= Seq::<ReviewItemView>::empty());
    assert(start + of_rank(all.take(0), k as nat) =~= start);
    while i < items.len()
        invariant
            i <= items.len(),
            all == items_view(items@),
            items_view(out@) == start + of_rank(all.take(i as int), k as nat),
        decreases items.len() - i,
    {
        assert(all.take(i + 1).drop_last() == all.take(i as int));
        assert(all.take(i + 1).last() == items@[i as int]@);
        if items[i].analysis.risk.sort_key() == k {
            let ghost before = items_view(out@);
            out.push(items[i].duplicate());
            assert(items_view(out@) =~= before.push(items@[i as int]@));
        }
        i = i + 1;
    }
    assert(all.take(items.len() as int) == all);
}

/// Builds the review queue from the semantic hunks and their analyses (see `review_queue`).
pub fn build_review_items(sem: &[SemanticHunk], analyses: &[Analysis]) -> (items: Vec<ReviewItem>)
    ensures
        items_view(items@) == review_queue(
            sem@.map_values(|s: SemanticHunk| s@),
            analyses@.map_values(|a: Analysis| a@),
        ),
{
    let ghost sv = sem@.map_values(|s: SemanticHunk| s@);
    let ghost av = analyses@.map_values(|a: Analysis| a@);
    let mut joined_items: Vec<ReviewItem> = Vec::new();
    let mut i: usize = 0;
    assert(sv.take(0) =~= Seq::<SemanticHunkView>::empty());
    while i < sem.len()
        invariant
            i <= sem.len(),
            sv == sem@.map_values(|s: SemanticHunk| s@),
            av == analyses@.map_values(|a: Analysis| a@),
            items_view(joined_items@) == joined(sv.take(i as int), av),
        decreases sem.len() - i,
    {
        assert(sv.take(i + 1).drop_last() == sv.take(i as int));
        assert(sv.take(i + 1).last() == sem@[i as int]@);
        if let Some(j) = find_analysis(analyses, &sem[i].id) {
            let ghost before = items_view(joined_items@);
            let item = ReviewItem {
                semantic: sem[i].duplicate(),
                analysis: analyses[j].duplicate(),
                decision: None,
                reject_reason: None,
            };
            joined_items.push(item);
            assert(items_view(joined_items@) =~= before.push(new_item(sem@[i as int]@, analyses@[j as int]@)));
        }
        i = i + 1;
    }
    assert(sv.take(sem.len() as int) == sv);
    let mut out: Vec<ReviewItem> = Vec::new();
    assert(items_view(out@) =~= Seq::<ReviewItemView>::empty());
    push_rank(&mut out, &joined_items, 0);
    push_rank(&mut out, &joined_items, 1);
    push_rank(&mut out, &joined_items, 2);
    out
}

} // verus!
