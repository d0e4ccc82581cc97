//! Ranking of scored candidates: which of them are shown, and in what order.

use vstd::prelude::*;

verus! {

/// The most rows a ranked view ever holds.
pub const MAX_VISIBLE: usize = 10;

/// Candidate `i` has a score, so it may be shown.
pub open spec fn is_match(scores: Seq<Option<i64>>, i: int) -> bool {
    0 <= i < scores.len() && scores[i] is Some
}

/// Candidate `a` is shown above candidate `b`: both have a score, and `a` has the
/// higher one or, at equal scores, the earlier place in the list.
pub open spec fn outranks(scores: Seq<Option<i64>>, a: int, b: int) -> bool {
    &&& is_match(scores, a)
    &&& is_match(scores, b)
    &&& (scores[a]->0 > scores[b]->0 || (scores[a]->0 == scores[b]->0 && a < b))
}

/// The view is full, and every row of it outranks candidate `i`.
pub open spec fn is_crowded_out(scores: Seq<Option<i64>>, rows: Seq<int>, i: int) -> bool {
    &&& rows.len() == MAX_VISIBLE
    &&& forall|k: int| 0 <= k < rows.len() ==> outranks(scores, #[trigger] rows[k], i)
}

/// `rows` is the ranked view of a list whose candidates have the given scores:
/// positions in the list, best first, of the candidates that have a score, cut
/// off after `MAX_VISIBLE` rows. A candidate with a score is left out only where
/// the view is full of candidates that outrank it.
pub open spec fn is_ranked_view(scores: Seq<Option<i64>>, rows: Seq<int>) -> bool {
    &&& rows.len() <= MAX_VISIBLE
    &&& forall|k: int| 0 <= k < rows.len() ==> is_match(scores, #[trigger] rows[k])
    &&& forall|k: int, l: int|
        0 <= k < l < rows.len() ==> outranks(scores, #[trigger] rows[k], #[trigger] rows[l])
    &&& forall|i: int| #[trigger]
        is_match(scores, i) && !rows.contains(i) ==> is_crowded_out(scores, rows, i)
}

/// The rows of a view as positions in the candidate list.
pub open spec fn row_indices(rows: Seq<usize>) -> Seq<int> {
    Seq::new(rows.len(), |k: int| rows[k] as int)
}

/// The view of a list in which nothing is preferred: its first rows, in the
/// order of the list.
pub open spec fn head_rows(candidates: nat) -> Seq<int> {
    Seq::new(
        if candidates < MAX_VISIBLE {
            candidates
        } else {
            MAX_VISIBLE as nat
        },
        |k: int| k,
    )
}

/// In two ranked views of the same scores that agree above row `k`, the first
/// view's row `k` does not outrank the second's.
proof fn lemma_row_not_outranked(
    scores: Seq<Option<i64>>,
    first: Seq<int>,
    second: Seq<int>,
    k: int,
)
    requires
        is_ranked_view(scores, first),
        is_ranked_view(scores, second),
        0 <= k < first.len(),
        k < second.len(),
        forall|j: int| 0 <= j < k ==> first[j] == second[j],
    ensures
        !outranks(scores, first[k], second[k]),
{
    let x = first[k];
    if outranks(scores, x, second[k]) && second.contains(x) {
        // Wherever the second view holds `x`, it contradicts an order: above row
        // `k` it is a row of the first view too, at row `k` it outranks itself,
        // below row `k` it is outranked by `second[k]`.
        let m = choose|m: int| 0 <= m < second.len() && second[m] == x;
        assert(m < k || m == k || m > k);
    }
}

/// Two ranked views of the same scores agree on their first `k` rows.
proof fn lemma_rows_agree(scores: Seq<Option<i64>>, first: Seq<int>, second: Seq<int>, k: int)
    requires
        is_ranked_view(scores, first),
        is_ranked_view(scores, second),
        0 <= k <= first.len(),
        k <= second.len(),
    ensures
        forall|j: int| 0 <= j < k ==> first[j] == second[j],
    decreases k,
{
    if k > 0 {
        lemma_rows_agree(scores, first, second, k - 1);
        lemma_row_not_outranked(scores, first, second, k - 1);
        lemma_row_not_outranked(scores, second, first, k - 1);
    }
}

/// A ranked view is at least as long as any other ranked view of the same scores.
proof fn lemma_no_shorter(scores: Seq<Option<i64>>, first: Seq<int>, second: Seq<int>)
    requires
        is_ranked_view(scores, first),
        is_ranked_view(scores, second),
    ensures
        first.len() >= second.len(),
{
    if first.len() < second.len() {
        lemma_rows_agree(scores, first, second, first.len() as int);
        let extra = second[first.len() as int];
        if first.contains(extra) {
            // The second view would hold `extra` twice.
            let m = choose|m: int| 0 <= m < first.len() && first[m] == extra;
            assert(second[m] == extra);
        }
    }
}

/// The ranked view is a function of the scores: two views of the same scores
/// hold the same rows in the same order.
pub proof fn lemma_ranked_view_unique(
    scores: Seq<Option<i64>>,
    first: Seq<int>,
    second: Seq<int>,
)
    requires
        is_ranked_view(scores, first),
        is_ranked_view(scores, second),
    ensures
        first == second,
{
    lemma_no_shorter(scores, first, second);
    lemma_no_shorter(scores, second, first);
    lemma_rows_agree(scores, first, second, first.len() as int);
}

/// A candidate that outranks a shown one is shown too, and in a row above it.
pub proof fn lemma_outranking_shown_above(
    scores: Seq<Option<i64>>,
    rows: Seq<int>,
    better: int,
    worse: int,
)
    requires
        is_ranked_view(scores, rows),
        outranks(scores, better, worse),
        rows.contains(worse),
    ensures
        rows.contains(better),
        rows.index_of(better) < rows.index_of(worse),
{
    let l = rows.index_of(worse);
    assert(rows.contains(better)) by {
        if !rows.contains(better) {
            assert(outranks(scores, rows[l], better));
        }
    }
    let k = rows.index_of(better);
    assert(k < l) by {
        if l < k {
            assert(outranks(scores, rows[l], rows[k]));
        }
    }
}

/// Of two candidates with a score, the one with the higher score comes first:
/// wherever the lower one is shown, the higher one is shown in a row above it.
pub proof fn lemma_higher_score_first(
    scores: Seq<Option<i64>>,
    rows: Seq<int>,
    higher: int,
    lower: int,
)
    requires
        is_ranked_view(scores, rows),
        is_match(scores, higher),
        is_match(scores, lower),
        scores[higher]->0 > scores[lower]->0,
        rows.contains(lower),
    ensures
        rows.contains(higher),
        rows.index_of(higher) < rows.index_of(lower),
{
    lemma_outranking_shown_above(scores, rows, higher, lower);
}

/// A candidate without a score is in no row.
pub proof fn lemma_unscored_never_shown(scores: Seq<Option<i64>>, rows: Seq<int>, i: int)
    requires
        is_ranked_view(scores, rows),
        !is_match(scores, i),
    ensures
        !rows.contains(i),
{
    if rows.contains(i) {
        let k = choose|k: int| 0 <= k < rows.len() && rows[k] == i;
        assert(is_match(scores, rows[k]));
    }
}

/// No candidate is shown twice.
pub proof fn lemma_rows_distinct(scores: Seq<Option<i64>>, rows: Seq<int>)
    requires
        is_ranked_view(scores, rows),
    ensures
        rows.no_duplicates(),
{
    assert forall|k: int, l: int| 0 <= k < rows.len() && 0 <= l < rows.len() && k != l implies rows[k]
        != rows[l] by {
        assert(k < l || l < k);
    }
}

/// Where every candidate has the same score, the view is the head of the list.
pub proof fn lemma_equal_scores_keep_list_order(
    scores: Seq<Option<i64>>,
    rows: Seq<int>,
    score: i64,
)
    requires
        is_ranked_view(scores, rows),
        forall|i: int| 0 <= i < scores.len() ==> scores[i] == Some(score),
    ensures
        rows == head_rows(scores.len()),
{
    let head = head_rows(scores.len());
    assert forall|i: int| #[trigger] is_match(scores, i) && !head.contains(i) implies is_crowded_out(
        scores,
        head,
        i,
    ) by {
        if i < head.len() {
            assert(head[i] == i);
        }
    }
    lemma_ranked_view_unique(scores, rows, head);
}

/// Scores seen so far stay what they were when one more candidate is looked at.
proof fn lemma_seen_scores(scores: Seq<Option<i64>>, n: int)
    requires
        0 <= n < scores.len(),
    ensures
        forall|i: int| #[trigger]
            is_match(scores.take(n + 1), i) <==> (is_match(scores.take(n), i) || (i == n
                && scores[n] is Some)),
        forall|a: int, b: int|
            0 <= a < n && 0 <= b < n ==> (#[trigger] outranks(scores.take(n + 1), a, b)
                <==> outranks(scores.take(n), a, b)),
        forall|i: int| 0 <= i < n ==> scores.take(n)[i] == scores[i],
        forall|i: int| 0 <= i <= n ==> scores.take(n + 1)[i] == scores[i],
{
}

/// A candidate without a score leaves the view as it is.
proof fn lemma_view_skips_unscored(scores: Seq<Option<i64>>, n: int, rows: Seq<int>)
    requires
        0 <= n < scores.len(),
        scores[n] is None,
        is_ranked_view(scores.take(n), rows),
    ensures
        is_ranked_view(scores.take(n + 1), rows),
{
    lemma_seen_scores(scores, n);
}

/// A full view whose rows all score at least as much as the next candidate
/// leaves that candidate out.
proof fn lemma_view_keeps_out(scores: Seq<Option<i64>>, n: int, rows: Seq<int>)
    requires
        0 <= n < scores.len(),
        scores[n] is Some,
        is_ranked_view(scores.take(n), rows),
        rows.len() == MAX_VISIBLE,
        scores[rows[MAX_VISIBLE - 1]]->0 >= scores[n]->0,
    ensures
        is_ranked_view(scores.take(n + 1), rows),
{
    lemma_seen_scores(scores, n);
    let next = scores.take(n + 1);
    // Every row scores at least as much as the last one, so each outranks the
    // new candidate, which stands later in the list.
    assert forall|k: int| 0 <= k < rows.len() implies outranks(next, #[trigger] rows[k], n) by {
        assert(k == MAX_VISIBLE - 1 || outranks(scores.take(n), rows[k], rows[MAX_VISIBLE - 1]));
    }
}

/// A candidate that enters the view at row `p` pushes the rows behind it down by
/// one, and the last row out when the view was full.
proof fn lemma_view_takes_in(scores: Seq<Option<i64>>, n: int, rows: Seq<int>, p: int)
    requires
        0 <= n < scores.len(),
        scores[n] is Some,
        is_ranked_view(scores.take(n), rows),
        0 <= p <= rows.len(),
        p < MAX_VISIBLE,
        forall|k: int| 0 <= k < p ==> scores[#[trigger] rows[k]]->0 >= scores[n]->0,
        forall|k: int| p <= k < rows.len() ==> scores[#[trigger] rows[k]]->0 < scores[n]->0,
    ensures
        is_ranked_view(
            scores.take(n + 1),
            (if rows.len() == MAX_VISIBLE {
                rows.drop_last()
            } else {
                rows
            }).insert(p, n),
        ),
{
    lemma_seen_scores(scores, n);
    let seen = scores.take(n);
    let next = scores.take(n + 1);
    let kept = if rows.len() == MAX_VISIBLE {
        rows.drop_last()
    } else {
        rows
    };
    let after = kept.insert(p, n);
    // The rows of the new view: those above `p` as they were, the new candidate,
    // and the kept rows from `p` on, one row further down.
    let moved = |k: int|
        if k < p {
            k
        } else {
            k - 1
        };
    assert forall|k: int| 0 <= k < after.len() && k != p implies #[trigger] after[k] == rows[moved(
        k,
    )] && is_match(seen, rows[moved(k)]) by {}
    assert(after[p] == n);
    assert forall|k: int, l: int| 0 <= k < l < after.len() implies outranks(
        next,
        #[trigger] after[k],
        #[trigger] after[l],
    ) by {
        if k != p && l != p {
            assert(outranks(seen, rows[moved(k)], rows[moved(l)]));
        }
    }
    assert forall|i: int| #[trigger] is_match(next, i) && !after.contains(i) implies is_crowded_out(
        next,
        after,
        i,
    ) by {
        // Left out of the new view is what was left out before, and the last
        // row where the view was full.
        let pushed_out = rows.contains(i);
        if pushed_out {
            let k = choose|k: int| 0 <= k < rows.len() && rows[k] == i;
            if k < kept.len() {
                assert(after[if k < p {
                    k
                } else {
                    k + 1
                }] == i);
            }
        }
        assert forall|k: int| 0 <= k < after.len() implies outranks(next, #[trigger] after[k], i) by {
            if k == p {
                assert(pushed_out || outranks(seen, rows[p], i));
            } else {
                assert(outranks(seen, rows[moved(k)], i));
            }
        }
    }
}

/// Where a candidate with score `score`, later in the list than every row, enters
/// the view: behind the rows that score at least as much.
fn insertion_point(scores: &Vec<Option<i64>>, rows: &Vec<usize>, score: i64) -> (p: usize)
    requires
        forall|k: int| 0 <= k < rows.len() ==> is_match(scores@, #[trigger] rows[k] as int),
        forall|k: int, l: int|
            0 <= k < l < rows.len() ==> outranks(
                scores@,
                #[trigger] rows[k] as int,
                #[trigger] rows[l] as int,
            ),
    ensures
        p <= rows.len(),
        forall|k: int| 0 <= k < p ==> scores[#[trigger] rows[k] as int]->0 >= score,
        forall|k: int| p <= k < rows.len() ==> scores[#[trigger] rows[k] as int]->0 < score,
{
    let mut p: usize = 0;
    while p < rows.len()
        invariant
            p <= rows.len(),
            forall|k: int| 0 <= k < rows.len() ==> is_match(scores@, #[trigger] rows[k] as int),
            forall|k: int, l: int|
                0 <= k < l < rows.len() ==> outranks(
                    scores@,
                    #[trigger] rows[k] as int,
                    #[trigger] rows[l] as int,
                ),
            forall|k: int| 0 <= k < p ==> scores[#[trigger] rows[k] as int]->0 >= score,
        decreases rows.len() - p,
    {
        let shown: i64 = match scores[rows[p]] {
            Some(s) => s,
            None => score,
        };
        if shown < score {
            // The rows below score no more than this one.
            assert forall|k: int| p < k < rows.len() implies scores[#[trigger] rows[k] as int]->0
                < score by {
                assert(outranks(scores@, rows[p as int] as int, rows[k] as int));
            }
            return p;
        }
        p += 1;
    }
    p
}

/// Computes the ranked view of a list from the scores of its candidates.
pub fn rank(scores: &Vec<Option<i64>>) -> (rows: Vec<usize>)
    ensures
        is_ranked_view(scores@, row_indices(rows@)),
        rows.len() <= MAX_VISIBLE,
        forall|k: int| 0 <= k < rows.len() ==> #[trigger] rows[k] < scores.len(),
{
    let mut rows: Vec<usize> = Vec::new();
    let mut i: usize = 0;
    while i < scores.len()
        invariant
            i <= scores.len(),
            is_ranked_view(scores@.take(i as int), row_indices(rows@)),
        decreases scores.len() - i,
    {
        let ghost before = row_indices(rows@);
        proof {
            lemma_seen_scores(scores@, i as int);
            assert forall|k: int| 0 <= k < rows.len() implies is_match(
                scores@,
                #[trigger] rows[k] as int,
            ) by {
                assert(is_match(scores@.take(i as int), before[k]));
            }
            assert forall|k: int, l: int| 0 <= k < l < rows.len() implies outranks(
                scores@,
                #[trigger] rows[k] as int,
                #[trigger] rows[l] as int,
            ) by {
                assert(outranks(scores@.take(i as int), before[k], before[l]));
            }
        }
        match scores[i] {
            Some(score) => {
                let p = insertion_point(scores, &rows, score);
                proof {
                    assert forall|k: int| 0 <= k < before.len() implies #[trigger] before[k]
                        == rows[k] as int by {}
                }
                if p < MAX_VISIBLE {
                    if rows.len() == MAX_VISIBLE {
                        rows.pop();
                    }
                    rows.insert(p, i);
                    proof {
                        lemma_view_takes_in(scores@, i as int, before, p as int);
                        assert(row_indices(rows@) =~= (if before.len() == MAX_VISIBLE {
                            before.drop_last()
                        } else {
                            before
                        }).insert(p as int, i as int));
                    }
                } else {
                    proof {
                        lemma_view_keeps_out(scores@, i as int, before);
                    }
                }
            },
            None => {
                proof {
                    lemma_view_skips_unscored(scores@, i as int, before);
                }
            },
        }
        i += 1;
    }
    proof {
        assert(scores@.take(i as int) =~= scores@);
        assert forall|k: int| 0 <= k < rows.len() implies #[trigger] rows[k] < scores.len() by {
            assert(is_match(scores@, row_indices(rows@)[k]));
        }
    }
    rows
}

} // verus!
