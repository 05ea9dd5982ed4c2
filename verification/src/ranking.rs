//! Ordering candidates by their scores.

use vstd::prelude::*;
use crate::candidate::ScoredCandidate;

verus! {

/// The integer by which a candidate is ordered.
pub open spec fn rank_of(candidate: ScoredCandidate) -> int {
    candidate.score.spec_rank()
}

/// No candidate stands before one of greater rank.
pub open spec fn descending(candidates: Seq<ScoredCandidate>) -> bool {
    forall|i: int, j: int|
        0 <= i < j < candidates.len() ==> rank_of(#[trigger] candidates[i]) >= rank_of(
            #[trigger] candidates[j],
        )
}

/// The test that picks the candidates of one rank.
pub open spec fn of_rank(rank: int) -> spec_fn(ScoredCandidate) -> bool {
    |candidate: ScoredCandidate| rank_of(candidate) == rank
}

/// Where a candidate of rank `rank` enters a list that is in descending
/// order: behind the last candidate whose rank is at least `rank`.
pub open spec fn insertion_point(sorted: Seq<ScoredCandidate>, rank: int) -> int
    decreases sorted.len(),
{
    if sorted.len() == 0 {
        0
    } else if rank_of(sorted.last()) >= rank {
        sorted.len() as int
    } else {
        insertion_point(sorted.drop_last(), rank)
    }
}

/// The candidates in descending order of rank, candidates of equal rank in
/// the order in which they stood.
pub open spec fn ranked(candidates: Seq<ScoredCandidate>) -> Seq<ScoredCandidate>
    decreases candidates.len(),
{
    if candidates.len() == 0 {
        candidates
    } else {
        let head = ranked(candidates.drop_last());
        head.insert(insertion_point(head, rank_of(candidates.last())), candidates.last())
    }
}

/// The insertion point lies within the list.
pub proof fn lemma_insertion_point_bounds(sorted: Seq<ScoredCandidate>, rank: int)
    ensures
        0 <= insertion_point(sorted, rank) <= sorted.len(),
    decreases sorted.len(),
{
    if sorted.len() > 0 && rank_of(sorted.last()) < rank {
        lemma_insertion_point_bounds(sorted.drop_last(), rank);
    }
}

/// Ranking keeps the number of candidates.
pub proof fn lemma_ranked_len(candidates: Seq<ScoredCandidate>)
    ensures
        ranked(candidates).len() == candidates.len(),
    decreases candidates.len(),
{
    if candidates.len() > 0 {
        let head = ranked(candidates.drop_last());
        lemma_ranked_len(candidates.drop_last());
        lemma_insertion_point_bounds(head, rank_of(candidates.last()));
    }
}

/// In a descending list, the candidates before the insertion point have at
/// least the given rank and those from it on have less.
pub proof fn lemma_insertion_point_splits(sorted: Seq<ScoredCandidate>, rank: int)
    requires
        descending(sorted),
    ensures
        0 <= insertion_point(sorted, rank) <= sorted.len(),
        forall|k: int|
            0 <= k < insertion_point(sorted, rank) ==> rank_of(#[trigger] sorted[k]) >= rank,
        forall|k: int|
            insertion_point(sorted, rank) <= k < sorted.len() ==> rank_of(#[trigger] sorted[k])
                < rank,
    decreases sorted.len(),
{
    if sorted.len() > 0 && rank_of(sorted.last()) < rank {
        let rest = sorted.drop_last();
        assert(descending(rest)) by {
            assert forall|i: int, j: int| 0 <= i < j < rest.len() implies rank_of(
                #[trigger] rest[i],
            ) >= rank_of(#[trigger] rest[j]) by {
                assert(rest[i] == sorted[i] && rest[j] == sorted[j]);
            }
        }
        lemma_insertion_point_splits(rest, rank);
        assert forall|k: int| 0 <= k < insertion_point(sorted, rank) implies rank_of(
            #[trigger] sorted[k],
        ) >= rank by {
            assert(sorted[k] == rest[k]);
        }
        assert forall|k: int| insertion_point(sorted, rank) <= k < sorted.len() implies rank_of(
            #[trigger] sorted[k],
        ) < rank by {
            if k < rest.len() {
                assert(sorted[k] == rest[k]);
            }
        }
    } else if sorted.len() > 0 {
        assert forall|k: int| 0 <= k < sorted.len() implies rank_of(#[trigger] sorted[k])
            >= rank by {
            if k < sorted.len() - 1 {
                assert(rank_of(sorted[k]) >= rank_of(sorted[sorted.len() - 1]));
            }
        }
    }
}

/// A ranked list is in descending order.
pub proof fn lemma_ranked_descending(candidates: Seq<ScoredCandidate>)
    ensures
        descending(ranked(candidates)),
    decreases candidates.len(),
{
    if candidates.len() > 0 {
        let head = ranked(candidates.drop_last());
        let item = candidates.last();
        let at = insertion_point(head, rank_of(item));
        lemma_ranked_descending(candidates.drop_last());
        lemma_insertion_point_splits(head, rank_of(item));
        let all = head.insert(at, item);
        assert forall|i: int, j: int| 0 <= i < j < all.len() implies rank_of(#[trigger] all[i])
            >= rank_of(#[trigger] all[j]) by {
            if j < at {
                assert(all[i] == head[i] && all[j] == head[j]);
            } else if j == at {
                assert(all[i] == head[i]);
            } else if i < at {
                assert(all[i] == head[i] && all[j] == head[j - 1]);
            } else if i == at {
                assert(all[j] == head[j - 1]);
            } else {
                assert(all[i] == head[i - 1] && all[j] == head[j - 1]);
            }
        }
    }
}

/// Ranking neither drops nor adds nor changes a candidate.
pub proof fn lemma_ranked_permutes(candidates: Seq<ScoredCandidate>)
    ensures
        ranked(candidates).to_multiset() == candidates.to_multiset(),
    decreases candidates.len(),
{
    if candidates.len() > 0 {
        let rest = candidates.drop_last();
        let head = ranked(rest);
        let item = candidates.last();
        lemma_ranked_permutes(rest);
        lemma_insertion_point_bounds(head, rank_of(item));
        vstd::seq_lib::to_multiset_insert(head, insertion_point(head, rank_of(item)), item);
        assert(candidates == rest.push(item));
        vstd::seq_lib::to_multiset_build(rest, item);
    }
}

/// Ranking is stable: the candidates of any one rank stand in a ranked list
/// in the order in which they stood before.
pub proof fn lemma_ranked_stable(candidates: Seq<ScoredCandidate>, rank: int)
    ensures
        ranked(candidates).filter(of_rank(rank)) == candidates.filter(of_rank(rank)),
    decreases candidates.len(),
{
    reveal(Seq::filter);
    if candidates.len() > 0 {
        let rest = candidates.drop_last();
        let head = ranked(rest);
        let item = candidates.last();
        let at = insertion_point(head, rank_of(item));
        let pick = of_rank(rank);
        lemma_ranked_stable(rest, rank);
        lemma_ranked_descending(rest);
        lemma_insertion_point_splits(head, rank_of(item));
        let front = head.take(at);
        let back = head.skip(at);
        assert(head == front + back);
        assert(head.insert(at, item) == front.push(item) + back);
        Seq::filter_distributes_over_add(front, back, pick);
        Seq::filter_distributes_over_add(front.push(item), back, pick);
        assert(front.push(item).drop_last() == front);
        if rank_of(item) == rank {
            assert forall|k: int| 0 <= k < back.len() implies !pick(#[trigger] back[k]) by {
                assert(back[k] == head[at + k]);
            }
            back.lemma_all_neg_filter_empty(pick);
            assert(back.filter(pick) == Seq::<ScoredCandidate>::empty());
            assert(front.filter(pick) + Seq::<ScoredCandidate>::empty() == front.filter(pick));
            assert(front.push(item).filter(pick) + Seq::<ScoredCandidate>::empty()
                == front.push(item).filter(pick));
        }
    }
}

/// A list whose candidates all pass a test is its own filter.
proof fn lemma_filter_keeps_all(list: Seq<ScoredCandidate>, pick: spec_fn(ScoredCandidate) -> bool)
    requires
        forall|k: int| 0 <= k < list.len() ==> pick(#[trigger] list[k]),
    ensures
        list.filter(pick) == list,
    decreases list.len(),
{
    reveal(Seq::filter);
    if list.len() > 0 {
        let rest = list.drop_last();
        assert forall|k: int| 0 <= k < rest.len() implies pick(#[trigger] rest[k]) by {
            assert(rest[k] == list[k]);
        }
        lemma_filter_keeps_all(rest, pick);
        assert(rest.push(list.last()) == list);
    }
}

/// A list none of whose candidates passes a test has an empty filter.
proof fn lemma_filter_drops_all(list: Seq<ScoredCandidate>, pick: spec_fn(ScoredCandidate) -> bool)
    requires
        forall|k: int| 0 <= k < list.len() ==> !pick(#[trigger] list[k]),
    ensures
        list.filter(pick) == Seq::<ScoredCandidate>::empty(),
    decreases list.len(),
{
    reveal(Seq::filter);
    if list.len() > 0 {
        let rest = list.drop_last();
        assert forall|k: int| 0 <= k < rest.len() implies !pick(#[trigger] rest[k]) by {
            assert(rest[k] == list[k]);
        }
        lemma_filter_drops_all(rest, pick);
    }
}

/// A candidate of a list stands in the list's filter for its own rank.
proof fn lemma_group_holds(list: Seq<ScoredCandidate>, at: int)
    requires
        0 <= at < list.len(),
    ensures
        list.filter(of_rank(rank_of(list[at]))).len() > 0,
{
    let pick = of_rank(rank_of(list[at]));
    list.filter_lemma(pick);
    assert(pick(list[at]));
    assert(list.filter(pick).contains(list[at]));
}

/// In a descending list whose lowest rank is `low`, the candidates of that
/// rank are the tail of the list from a place on, and the filter for the
/// rank is that tail; the candidates before the place rank higher.
proof fn lemma_lowest_group_is_tail(list: Seq<ScoredCandidate>, low: int)
    requires
        descending(list),
        forall|k: int| 0 <= k < list.len() ==> rank_of(#[trigger] list[k]) >= low,
    ensures
        0 <= insertion_point(list, low + 1) <= list.len(),
        list.filter(of_rank(low)) == list.skip(insertion_point(list, low + 1)),
        forall|k: int|
            0 <= k < insertion_point(list, low + 1) ==> rank_of(#[trigger] list[k]) > low,
        forall|rank: int|
            rank != low ==> #[trigger] list.filter(of_rank(rank)) == list.take(
                insertion_point(list, low + 1),
            ).filter(of_rank(rank)),
        list.take(insertion_point(list, low + 1)).filter(of_rank(low)) == Seq::<
            ScoredCandidate,
        >::empty(),
{
    let cut = insertion_point(list, low + 1);
    lemma_insertion_point_splits(list, low + 1);
    let front = list.take(cut);
    let back = list.skip(cut);
    assert(list == front + back);
    assert forall|k: int| 0 <= k < back.len() implies of_rank(low)(#[trigger] back[k]) by {
        assert(back[k] == list[cut + k]);
    }
    assert forall|k: int| 0 <= k < front.len() implies !of_rank(low)(#[trigger] front[k]) by {
        assert(front[k] == list[k]);
    }
    lemma_filter_keeps_all(back, of_rank(low));
    lemma_filter_drops_all(front, of_rank(low));
    Seq::filter_distributes_over_add(front, back, of_rank(low));
    assert(Seq::<ScoredCandidate>::empty() + back == back);
    assert forall|rank: int| rank != low implies #[trigger] list.filter(of_rank(rank))
        == front.filter(of_rank(rank)) by {
        assert forall|k: int| 0 <= k < back.len() implies !of_rank(rank)(#[trigger] back[k]) by {
            assert(back[k] == list[cut + k]);
        }
        lemma_filter_drops_all(back, of_rank(rank));
        Seq::filter_distributes_over_add(front, back, of_rank(rank));
        assert(front.filter(of_rank(rank)) + Seq::<ScoredCandidate>::empty() == front.filter(
            of_rank(rank),
        ));
    }
}

/// Two descending lists that hold, for every rank, the same candidates of
/// that rank in the same order are the same list.
pub proof fn lemma_groups_decide(first: Seq<ScoredCandidate>, second: Seq<ScoredCandidate>)
    requires
        descending(first),
        descending(second),
        forall|rank: int|
            #[trigger] first.filter(of_rank(rank)) == second.filter(of_rank(rank)),
    ensures
        first == second,
    decreases first.len(),
{
    reveal(Seq::filter);
    if first.len() == 0 {
        if second.len() > 0 {
            lemma_group_holds(second, 0);
            assert(first.filter(of_rank(rank_of(second[0]))) == second.filter(
                of_rank(rank_of(second[0])),
            ));
        }
        assert(first =~= second);
    } else {
        let low = rank_of(first.last());
        assert forall|k: int| 0 <= k < first.len() implies rank_of(#[trigger] first[k]) >= low by {
            if k < first.len() - 1 {
                assert(rank_of(first[k]) >= rank_of(first[first.len() - 1]));
            }
        }
        assert forall|k: int| 0 <= k < second.len() implies rank_of(#[trigger] second[k])
            >= low by {
            let rank = rank_of(second[k]);
            if rank < low {
                lemma_group_holds(second, k);
                assert(first.filter(of_rank(rank)) == second.filter(of_rank(rank)));
                assert forall|j: int| 0 <= j < first.len() implies !of_rank(rank)(
                    #[trigger] first[j],
                ) by {}
                lemma_filter_drops_all(first, of_rank(rank));
            }
        }
        lemma_lowest_group_is_tail(first, low);
        lemma_lowest_group_is_tail(second, low);
        let cut_first = insertion_point(first, low + 1);
        let cut_second = insertion_point(second, low + 1);
        let front_first = first.take(cut_first);
        let front_second = second.take(cut_second);
        assert(first.filter(of_rank(low)) == second.filter(of_rank(low)));
        lemma_group_holds(first, first.len() - 1);
        assert(cut_first < first.len());
        assert(descending(front_first)) by {
            assert forall|i: int, j: int| 0 <= i < j < front_first.len() implies rank_of(
                #[trigger] front_first[i],
            ) >= rank_of(#[trigger] front_first[j]) by {
                assert(front_first[i] == first[i] && front_first[j] == first[j]);
            }
        }
        assert(descending(front_second)) by {
            assert forall|i: int, j: int| 0 <= i < j < front_second.len() implies rank_of(
                #[trigger] front_second[i],
            ) >= rank_of(#[trigger] front_second[j]) by {
                assert(front_second[i] == second[i] && front_second[j] == second[j]);
            }
        }
        assert forall|rank: int| #[trigger]
            front_first.filter(of_rank(rank)) == front_second.filter(of_rank(rank)) by {
            if rank != low {
                assert(first.filter(of_rank(rank)) == second.filter(of_rank(rank)));
            }
        }
        lemma_groups_decide(front_first, front_second);
        assert(first == front_first + first.skip(cut_first));
        assert(second == front_second + second.skip(cut_second));
    }
}

/// Ranking is decided by its two laws: a list in descending order that
/// holds, for every rank, the candidates of that rank in the order in which
/// they stood is the ranked list.
pub proof fn lemma_ranked_is_unique(candidates: Seq<ScoredCandidate>, other: Seq<ScoredCandidate>)
    requires
        descending(other),
        forall|rank: int|
            #[trigger] other.filter(of_rank(rank)) == candidates.filter(of_rank(rank)),
    ensures
        other == ranked(candidates),
{
    lemma_ranked_descending(candidates);
    assert forall|rank: int| #[trigger]
        ranked(candidates).filter(of_rank(rank)) == other.filter(of_rank(rank)) by {
        lemma_ranked_stable(candidates, rank);
    }
    lemma_groups_decide(ranked(candidates), other);
}

/// Puts the candidates in descending order of rank; candidates of equal rank
/// keep their order.
pub fn rank_candidates(results: &mut Vec<ScoredCandidate>)
    ensures
        final(results)@ == ranked(old(results)@),
{
    let n = results.len();
    let mut i: usize = 0;
    assert(results@.take(0) == ranked(old(results)@.take(0)));
    while i < n
        invariant
            i <= n,
            n == old(results)@.len(),
            results@.len() == n,
            results@.take(i as int) == ranked(old(results)@.take(i as int)),
            results@.skip(i as int) == old(results)@.skip(i as int),
        decreases n - i,
    {
        let ghost before = results@;
        let ghost head = results@.take(i as int);
        let rank = results[i].score.rank();
        let mut j: usize = i;
        assert(head.take(i as int) == head);
        while j > 0 && results[j - 1].score.rank() < rank
            invariant
                j <= i,
                i < n,
                results@ == before,
                head == before.take(i as int),
                before.len() == n,
                insertion_point(head, rank as int) == insertion_point(head.take(j as int), rank as int),
            decreases j,
        {
            proof {
                assert(head.take(j as int).drop_last() == head.take(j - 1));
                assert(head.take(j as int).last() == before[j - 1]);
            }
            j -= 1;
        }
        proof {
            let item = before[i as int];
            let grown = old(results)@.take(i + 1);
            assert(before.skip(i as int)[0] == old(results)@.skip(i as int)[0]);
            assert(grown.drop_last() == old(results)@.take(i as int));
            assert(grown.last() == item);
            if j > 0 {
                assert(head.take(j as int).last() == before[j - 1]);
            }
            assert(insertion_point(head, rank as int) == j);
            assert(ranked(grown) == head.insert(j as int, item));
        }
        if j < i {
            let item = results.remove(i);
            results.insert(j, item);
        }
        proof {
            let item = before[i as int];
            assert(results@.take(i + 1) =~= head.insert(j as int, item));
            assert forall|k: int| i < k < n implies #[trigger] results@[k] == old(results)@[k] by {
                assert(before.skip(i as int)[k - i] == old(results)@.skip(i as int)[k - i]);
            }
            assert(results@.skip(i + 1) =~= old(results)@.skip(i + 1));
        }
        i += 1;
    }
    assert(results@.take(n as int) == results@);
    assert(old(results)@.take(n as int) == old(results)@);
}

} // verus!
