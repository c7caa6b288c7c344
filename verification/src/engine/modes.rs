use crate::engine::rank::{
    insert_ranked, lemma_rank_carries, lemma_rank_order_total, lemma_rank_sides,
    lemma_ranking_descends, lemma_ranking_ignores_input_order, precedes, rank_order, ranked,
    ranks_before, result_views, ResultView, SearchResult, DEFAULT_THRESHOLD, DEFAULT_TOPK,
};
use crate::text::contains_text;
use vstd::prelude::*;
use vstd::relations::sorted_by;
use vstd::seq_lib::{lemma_multiset_commutative, lemma_sorted_unique};

verus! {

/// How a query is answered.
#[derive(Clone, Copy, Debug, PartialEq, Eq, Structural)]
pub enum SearchMode {
    Regex,
    Lexical,
    Semantic,
    Hybrid,
}

/// A chunk of the index with the two scores a query gave it, in millionths.
#[derive(Debug)]
pub struct Candidate {
    pub file: String,
    pub line_start: usize,
    pub line_end: usize,
    pub preview: String,
    pub lexical: i32,
    pub semantic: i32,
}

/// A candidate as plain values.
pub struct CandidateView {
    pub file: Seq<char>,
    pub line_start: usize,
    pub line_end: usize,
    pub preview: Seq<char>,
    pub lexical: i32,
    pub semantic: i32,
}

impl View for Candidate {
    type V = CandidateView;

    open spec fn view(&self) -> CandidateView {
        CandidateView {
            file: self.file@,
            line_start: self.line_start,
            line_end: self.line_end,
            preview: self.preview@,
            lexical: self.lexical,
            semantic: self.semantic,
        }
    }
}

/// The candidates as plain values.
pub open spec fn candidate_views(candidates: Seq<Candidate>) -> Seq<CandidateView> {
    Seq::new(candidates.len(), |i: int| candidates[i]@)
}

/// How much each of the two scores counts in a hybrid query.
#[derive(Clone, Copy, Debug, PartialEq, Eq, Structural)]
pub struct FusionWeights {
    pub lexical: u8,
    pub semantic: u8,
}

/// The score a candidate has in a query of this mode: one of its two scores,
/// or, in hybrid mode, the two weighted and added up. An exact match has no
/// candidates; its mode scores nothing.
pub open spec fn mode_score(c: CandidateView, mode: SearchMode, weights: FusionWeights) -> i64 {
    match mode {
        SearchMode::Lexical => c.lexical as i64,
        SearchMode::Semantic => c.semantic as i64,
        SearchMode::Hybrid => (weights.lexical * c.lexical + weights.semantic * c.semantic) as i64,
        SearchMode::Regex => 0,
    }
}

/// The result a candidate becomes in a query of this mode.
pub open spec fn scored(c: CandidateView, mode: SearchMode, weights: FusionWeights) -> ResultView {
    ResultView {
        file: c.file,
        line_start: c.line_start,
        line_end: c.line_end,
        preview: c.preview,
        score: mode_score(c, mode, weights),
    }
}

/// The candidates as results of a query of this mode, in their order.
pub open spec fn all_scored(
    candidates: Seq<CandidateView>,
    mode: SearchMode,
    weights: FusionWeights,
) -> Seq<ResultView> {
    candidates.map_values(|c: CandidateView| scored(c, mode, weights))
}

/// The results whose score is `threshold` or more, in their order.
pub open spec fn at_least(results: Seq<ResultView>, threshold: i64) -> Seq<ResultView>
    decreases results.len(),
{
    if results.len() == 0 {
        results
    } else if results.last().score >= threshold {
        at_least(results.drop_last(), threshold).push(results.last())
    } else {
        at_least(results.drop_last(), threshold)
    }
}

/// The first `limit` of `results`, or all of them where there are fewer or no
/// limit is set.
pub open spec fn first_of(results: Seq<ResultView>, limit: Option<usize>) -> Seq<ResultView> {
    match limit {
        Some(k) if k < results.len() => results.take(k as int),
        _ => results,
    }
}

/// What a query returns of `results`: those that reach the threshold, if one
/// is set, best first, cut to the limit, if one is set.
pub open spec fn selection(
    results: Seq<ResultView>,
    threshold: Option<i64>,
    limit: Option<usize>,
) -> Seq<ResultView> {
    first_of(
        ranked(
            match threshold {
                Some(t) => at_least(results, t),
                None => results,
            },
        ),
        limit,
    )
}

/// The threshold and the limit of a query of this mode. A semantic query
/// always has both; the other modes have those that the query sets.
pub open spec fn effective_bounds(
    mode: SearchMode,
    topk: Option<usize>,
    threshold: Option<i64>,
) -> (Option<i64>, Option<usize>) {
    if mode == SearchMode::Semantic {
        (
            Some(
                match threshold {
                    Some(t) => t,
                    None => DEFAULT_THRESHOLD,
                },
            ),
            Some(
                match topk {
                    Some(k) => k,
                    None => DEFAULT_TOPK,
                },
            ),
        )
    } else {
        (threshold, topk)
    }
}

/// `at_least` keeps exactly the results that reach the threshold.
pub proof fn lemma_at_least(results: Seq<ResultView>, threshold: i64)
    ensures
        forall|i: int|
            0 <= i < at_least(results, threshold).len() ==> (#[trigger] at_least(
                results,
                threshold,
            )[i]).score >= threshold && results.contains(at_least(results, threshold)[i]),
        forall|i: int|
            0 <= i < results.len() && (#[trigger] results[i]).score >= threshold ==> at_least(
                results,
                threshold,
            ).contains(results[i]),
        at_least(results, threshold).len() <= results.len(),
    decreases results.len(),
{
    if results.len() > 0 {
        let front = results.drop_last();
        lemma_at_least(front, threshold);
        let sub = at_least(front, threshold);
        let out = at_least(results, threshold);
        assert forall|i: int| 0 <= i < out.len() implies (#[trigger] out[i]).score >= threshold
            && results.contains(out[i]) by {
            if i < sub.len() {
                assert(sub[i] == out[i]);
                let k = choose|k: int| 0 <= k < front.len() && front[k] == sub[i];
                assert(results[k] == out[i]);
            } else {
                assert(results[results.len() - 1] == out[i]);
            }
        }
        assert forall|i: int| 0 <= i < results.len() && (#[trigger] results[i]).score
            >= threshold implies out.contains(results[i]) by {
            if i < front.len() {
                assert(front[i] == results[i]);
                assert(sub.contains(front[i]));
                let k = choose|k: int| 0 <= k < sub.len() && sub[k] == front[i];
                assert(out[k] == results[i]);
            } else {
                assert(out[out.len() - 1] == results[i]);
            }
        }
    }
}

/// What a query returns is ordered by descending score, holds no result
/// below the threshold, holds no more results than the limit allows, and
/// holds only results that came in.
pub proof fn lemma_selection(results: Seq<ResultView>, threshold: Option<i64>, limit: Option<usize>)
    ensures
        forall|i: int, j: int|
            0 <= i < j < selection(results, threshold, limit).len() ==> (#[trigger] selection(
                results,
                threshold,
                limit,
            )[i]).score >= (#[trigger] selection(results, threshold, limit)[j]).score,
        forall|i: int, j: int|
            0 <= i < j < selection(results, threshold, limit).len() ==> ranks_before(
                #[trigger] selection(results, threshold, limit)[i],
                #[trigger] selection(results, threshold, limit)[j],
            ),
        threshold matches Some(t) ==> forall|i: int|
            0 <= i < selection(results, threshold, limit).len() ==> (#[trigger] selection(
                results,
                threshold,
                limit,
            )[i]).score >= t,
        limit matches Some(k) ==> selection(results, threshold, limit).len() <= k,
        selection(results, threshold, limit).len() <= results.len(),
        forall|i: int|
            0 <= i < selection(results, threshold, limit).len() ==> results.contains(
                #[trigger] selection(results, threshold, limit)[i],
            ),
{
    let passing = match threshold {
        Some(t) => at_least(results, t),
        None => results,
    };
    let all = ranked(passing);
    let out = selection(results, threshold, limit);
    lemma_ranking_descends(passing);
    lemma_rank_order_total();
    passing.lemma_sort_by_ensures(rank_order());
    if let Some(t) = threshold {
        lemma_at_least(results, t);
    }
    let leq = rank_order();
    assert forall|i: int| 0 <= i < out.len() implies out[i] == all[i] by {}
    assert forall|i: int, j: int| 0 <= i < j < out.len() implies ranks_before(
        #[trigger] out[i],
        #[trigger] out[j],
    ) by {
        assert(leq(all[i], all[j]));
    }
    assert forall|i: int| 0 <= i < out.len() implies results.contains(#[trigger] out[i]) && (
    threshold matches Some(t) ==> out[i].score >= t) by {
        assert(all.contains(all[i]));
        assert(passing.contains(all[i]));
        let k = choose|k: int| 0 <= k < passing.len() && passing[k] == all[i];
        if let Some(t) = threshold {
            assert(passing[k].score >= t);
        }
    }
}

/// Results that come in another order give the same multiset once mapped.
pub proof fn lemma_map_keeps_multiset<A, B>(a: Seq<A>, b: Seq<A>, f: spec_fn(A) -> B)
    requires
        a.to_multiset() == b.to_multiset(),
    ensures
        a.map_values(f).to_multiset() == b.map_values(f).to_multiset(),
    decreases a.len(),
{
    broadcast use vstd::seq_lib::group_to_multiset_ensures;

    vstd::seq_lib::to_multiset_len(a);
    vstd::seq_lib::to_multiset_len(b);
    if a.len() == 0 {
        assert(a.map_values(f) =~= b.map_values(f));
    } else {
        let x = a.last();
        let front = a.drop_last();
        assert(a =~= front.push(x));
        assert(a.contains(x)) by {
            assert(a[a.len() - 1] == x);
        }
        assert(b.to_multiset().count(x) > 0);
        assert(b.contains(x));
        let k = choose|k: int| 0 <= k < b.len() && b[k] == x;
        let rest = b.remove(k);
        assert(front.to_multiset() =~= rest.to_multiset()) by {
            assert(a.to_multiset() =~= front.to_multiset().insert(x));
            assert(rest.to_multiset() =~= b.to_multiset().remove(x));
        }
        lemma_map_keeps_multiset(front, rest, f);
        let ma = a.map_values(f);
        let mb = b.map_values(f);
        assert(ma =~= front.map_values(f).push(f(x)));
        assert(mb.remove(k) =~= rest.map_values(f));
        assert(mb[k] == f(x));
        assert(ma.to_multiset() =~= front.map_values(f).to_multiset().insert(f(x)));
        assert(mb.remove(k).to_multiset() =~= mb.to_multiset().remove(f(x)));
        assert(mb.contains(f(x)));
        assert(mb.to_multiset().count(f(x)) > 0);
        assert(mb.to_multiset() =~= rest.map_values(f).to_multiset().insert(f(x)));
    }
}

/// How often a result is among those that reach the threshold: as often as
/// it came in where it reaches it, and never where it does not.
pub proof fn lemma_at_least_counts(results: Seq<ResultView>, threshold: i64, r: ResultView)
    ensures
        at_least(results, threshold).to_multiset().count(r) == if r.score >= threshold {
            results.to_multiset().count(r)
        } else {
            0
        },
    decreases results.len(),
{
    broadcast use vstd::seq_lib::group_to_multiset_ensures;

    if results.len() == 0 {
        assert(results.to_multiset().count(r) == 0) by {
            vstd::seq_lib::to_multiset_len(results);
        }
    } else {
        let front = results.drop_last();
        let x = results.last();
        lemma_at_least_counts(front, threshold, r);
        assert(results =~= front.push(x));
        assert(results.to_multiset() =~= front.to_multiset().insert(x));
        if x.score >= threshold {
            assert(at_least(results, threshold).to_multiset() =~= at_least(
                front,
                threshold,
            ).to_multiset().insert(x));
        }
    }
}

/// The results that reach the threshold do not depend, but for their order,
/// on the order in which the results come in.
pub proof fn lemma_at_least_keeps_multiset(a: Seq<ResultView>, b: Seq<ResultView>, threshold: i64)
    requires
        a.to_multiset() == b.to_multiset(),
    ensures
        at_least(a, threshold).to_multiset() == at_least(b, threshold).to_multiset(),
{
    assert forall|r: ResultView|
        at_least(a, threshold).to_multiset().count(r) == at_least(
            b,
            threshold,
        ).to_multiset().count(r) by {
        lemma_at_least_counts(a, threshold, r);
        lemma_at_least_counts(b, threshold, r);
    }
    assert(at_least(a, threshold).to_multiset() =~= at_least(b, threshold).to_multiset());
}

/// What a query returns does not depend on the order in which its
/// candidates come in. This holds in every mode, the fusion of hybrid mode
/// included, with any threshold and any limit.
pub proof fn lemma_candidate_order_is_immaterial(
    a: Seq<CandidateView>,
    b: Seq<CandidateView>,
    mode: SearchMode,
    weights: FusionWeights,
)
    requires
        a.to_multiset() == b.to_multiset(),
    ensures
        ranked(all_scored(a, mode, weights)) == ranked(all_scored(b, mode, weights)),
        forall|threshold: Option<i64>, limit: Option<usize>|
            #![trigger selection(all_scored(a, mode, weights), threshold, limit)]
            selection(all_scored(a, mode, weights), threshold, limit) == selection(
                all_scored(b, mode, weights),
                threshold,
                limit,
            ),
{
    let sa = all_scored(a, mode, weights);
    let sb = all_scored(b, mode, weights);
    lemma_map_keeps_multiset(a, b, |c: CandidateView| scored(c, mode, weights));
    lemma_ranking_ignores_input_order(sa, sb);
    assert forall|threshold: Option<i64>, limit: Option<usize>|
        #![trigger selection(sa, threshold, limit)]
        selection(sa, threshold, limit) == selection(sb, threshold, limit) by {
        if let Some(t) = threshold {
            lemma_at_least_keeps_multiset(sa, sb, t);
            lemma_ranking_ignores_input_order(at_least(sa, t), at_least(sb, t));
        }
    }
}

/// The threshold and the limit of a query of this mode.
pub fn bounds_for(mode: SearchMode, topk: Option<usize>, threshold: Option<i64>) -> (bounds: (
    Option<i64>,
    Option<usize>,
))
    ensures
        bounds == effective_bounds(mode, topk, threshold),
{
    if mode == SearchMode::Semantic {
        (
            Some(
                match threshold {
                    Some(t) => t,
                    None => DEFAULT_THRESHOLD,
                },
            ),
            Some(
                match topk {
                    Some(k) => k,
                    None => DEFAULT_TOPK,
                },
            ),
        )
    } else {
        (threshold, topk)
    }
}

/// The score of `candidate` in a query of this mode.
pub fn score_of(candidate: &Candidate, mode: SearchMode, weights: FusionWeights) -> (score: i64)
    ensures
        score == mode_score(candidate@, mode, weights),
{
    match mode {
        SearchMode::Lexical => candidate.lexical as i64,
        SearchMode::Semantic => candidate.semantic as i64,
        SearchMode::Hybrid => {
            let wl = weights.lexical as i64;
            let ws = weights.semantic as i64;
            let l = candidate.lexical as i64;
            let s = candidate.semantic as i64;
            assert(-0x80_0000_0000 <= wl * l <= 0x80_0000_0000) by (nonlinear_arith)
                requires
                    0 <= wl <= 255,
                    -0x8000_0000 <= l <= 0x8000_0000,
            ;
            assert(-0x80_0000_0000 <= ws * s <= 0x80_0000_0000) by (nonlinear_arith)
                requires
                    0 <= ws <= 255,
                    -0x8000_0000 <= s <= 0x8000_0000,
            ;
            wl * l + ws * s
        },
        SearchMode::Regex => 0,
    }
}

/// The candidates as results of a query of this mode, in their order.
pub fn score_all(candidates: &Vec<Candidate>, mode: SearchMode, weights: FusionWeights) -> (results:
    Vec<SearchResult>)
    ensures
        result_views(results@) == all_scored(candidate_views(candidates@), mode, weights),
{
    let mut results: Vec<SearchResult> = Vec::new();
    let mut i: usize = 0;
    while i < candidates.len()
        invariant
            i <= candidates@.len(),
            results@.len() == i,
            forall|k: int| 0 <= k < i ==> (#[trigger] results@[k])@ == scored(candidates@[k]@, mode, weights),
        decreases candidates@.len() - i,
    {
        let c = &candidates[i];
        results.push(
            SearchResult {
                file: c.file.clone(),
                line_start: c.line_start,
                line_end: c.line_end,
                preview: c.preview.clone(),
                score: score_of(c, mode, weights),
            },
        );
        i = i + 1;
    }
    proof {
        assert(result_views(results@) =~= all_scored(candidate_views(candidates@), mode, weights));
    }
    results
}

/// What a query returns of `results`: those that reach the threshold, if one
/// is set, best first, cut to the limit, if one is set.
pub fn select(results: &Vec<SearchResult>, threshold: Option<i64>, limit: Option<usize>) -> (chosen:
    Vec<SearchResult>)
    ensures
        result_views(chosen@) == selection(result_views(results@), threshold, limit),
{
    let mut chosen: Vec<SearchResult> = Vec::new();
    let ghost all = result_views(results@);
    let mut i: usize = 0;
    proof {
        assert(all.take(0) =~= Seq::<ResultView>::empty());
        assert(result_views(chosen@) =~= Seq::<ResultView>::empty());
    }
    while i < results.len()
        invariant
            i <= results@.len(),
            all == result_views(results@),
            sorted_by(result_views(chosen@), rank_order()),
            result_views(chosen@).to_multiset() == (match threshold {
                Some(t) => at_least(all.take(i as int), t),
                None => all.take(i as int),
            }).to_multiset(),
        decreases results@.len() - i,
    {
        let r = &results[i];
        let passes = match threshold {
            Some(t) => r.score >= t,
            None => true,
        };
        proof {
            let next = all.take(i + 1);
            assert(next.drop_last() =~= all.take(i as int));
            assert(next.last() == r@);
            assert(next =~= all.take(i as int).push(r@));
            match threshold {
                Some(t) => {
                    if passes {
                        vstd::seq_lib::to_multiset_build(at_least(all.take(i as int), t), r@);
                    }
                },
                None => {
                    vstd::seq_lib::to_multiset_build(all.take(i as int), r@);
                },
            }
        }
        if passes {
            insert_ranked(&mut chosen, r.duplicate());
        }
        i = i + 1;
    }
    proof {
        assert(all.take(i as int) =~= all);
        let passing = match threshold {
            Some(t) => at_least(all, t),
            None => all,
        };
        lemma_rank_order_total();
        passing.lemma_sort_by_ensures(rank_order());
        lemma_sorted_unique(result_views(chosen@), ranked(passing), rank_order());
    }
    match limit {
        Some(k) => {
            if k < chosen.len() {
                let ghost full = result_views(chosen@);
                chosen.truncate(k);
                proof {
                    assert(result_views(chosen@) =~= full.take(k as int));
                }
            }
        },
        None => {},
    }
    chosen
}

/// Answers a query of a scoring mode over its candidates. The results come
/// best first: by descending score, equal scores by file path and then by
/// line. None is below the threshold and there are no more than the limit
/// allows; a semantic query has both even where it sets none.
pub fn search_candidates(
    candidates: &Vec<Candidate>,
    mode: SearchMode,
    weights: FusionWeights,
    topk: Option<usize>,
    threshold: Option<i64>,
) -> (results: Vec<SearchResult>)
    ensures
        result_views(results@) == selection(
            all_scored(candidate_views(candidates@), mode, weights),
            effective_bounds(mode, topk, threshold).0,
            effective_bounds(mode, topk, threshold).1,
        ),
        forall|i: int, j: int|
            0 <= i < j < results@.len() ==> (#[trigger] results@[i]).score >= (#[trigger] results@[j]).score,
        effective_bounds(mode, topk, threshold).0 matches Some(t) ==> forall|i: int|
            0 <= i < results@.len() ==> (#[trigger] results@[i]).score >= t,
        effective_bounds(mode, topk, threshold).1 matches Some(k) ==> results@.len() <= k,
        results@.len() <= candidates@.len(),
{
    let bounds = bounds_for(mode, topk, threshold);
    let all = score_all(candidates, mode, weights);
    let results = select(&all, bounds.0, bounds.1);
    proof {
        lemma_selection(result_views(all@), bounds.0, bounds.1);
        let chosen = result_views(results@);
        assert forall|i: int, j: int| 0 <= i < j < results@.len() implies (#[trigger] results@[i]).score
            >= (#[trigger] results@[j]).score by {
            assert(chosen[i].score >= chosen[j].score);
        }
        if let Some(t) = bounds.0 {
            assert forall|i: int| 0 <= i < results@.len() implies (#[trigger] results@[i]).score
                >= t by {
                assert(chosen[i].score >= t);
            }
        }
    }
    results
}

/// The best of the results that miss the threshold, for a query that found
/// nothing: `None` when every result reaches it.
pub fn closest_below(results: &Vec<SearchResult>, threshold: i64) -> (closest: Option<SearchResult>)
    ensures
        closest is None <==> forall|i: int|
            0 <= i < results@.len() ==> (#[trigger] results@[i]).score >= threshold,
        closest matches Some(c) ==> c.score < threshold && (exists|i: int|
            0 <= i < results@.len() && (#[trigger] results@[i])@ == c@) && (forall|i: int|
            0 <= i < results@.len() && (#[trigger] results@[i]).score < threshold ==> ranks_before(
                c@,
                results@[i]@,
            )),
{
    let mut best: Option<usize> = None;
    let mut i: usize = 0;
    while i < results.len()
        invariant
            i <= results@.len(),
            best is None <==> forall|k: int| 0 <= k < i ==> (#[trigger] results@[k]).score >= threshold,
            best matches Some(b) ==> b < i && results@[b as int].score < threshold && (forall|k: int|
                0 <= k < i && (#[trigger] results@[k]).score < threshold ==> ranks_before(
                    results@[b as int]@,
                    results@[k]@,
                )),
        decreases results@.len() - i,
    {
        if results[i].score < threshold {
            match best {
                None => {
                    proof {
                        lemma_rank_sides(results@[i as int]@, results@[i as int]@);
                    }
                    best = Some(i);
                },
                Some(b) => {
                    if !precedes(&results[b], &results[i]) {
                        proof {
                            let x = results@[i as int]@;
                            let old_best = results@[b as int]@;
                            lemma_rank_sides(old_best, x);
                            lemma_rank_sides(x, x);
                            assert forall|k: int|
                                0 <= k < i + 1 && (#[trigger] results@[k]).score
                                    < threshold implies ranks_before(x, results@[k]@) by {
                                if k < i {
                                    lemma_rank_carries(x, old_best, results@[k]@);
                                }
                            }
                        }
                        best = Some(i);
                    }
                },
            }
        }
        i = i + 1;
    }
    match best {
        Some(b) => Some(results[b].duplicate()),
        None => None,
    }
}

/// A result with its score set to `score`.
pub open spec fn rescored(r: ResultView, score: i64) -> ResultView {
    ResultView { score, ..r }
}

/// The results with the scores of `scores` in place of their own.
pub open spec fn all_rescored(results: Seq<ResultView>, scores: Seq<i64>) -> Seq<ResultView> {
    Seq::new(results.len(), |i: int| rescored(results[i], scores[i]))
}

/// What a result is apart from its score.
pub open spec fn unscored(r: ResultView) -> ResultView {
    rescored(r, 0)
}

/// The ranking after its first results were scored anew: those come first,
/// ranked by their new scores, and the others follow as they were.
pub open spec fn reranked(results: Seq<ResultView>, scores: Seq<i64>) -> Seq<ResultView> {
    ranked(all_rescored(results.take(scores.len() as int), scores)) + results.skip(
        scores.len() as int,
    )
}

/// Puts the first results of a ranking in the order of the scores that a
/// second model gave them. `scores[i]` is the new score of result `i`; the
/// results beyond the scores stay where they are.
pub fn rerank(results: &Vec<SearchResult>, scores: &Vec<i64>) -> (again: Vec<SearchResult>)
    requires
        scores@.len() <= results@.len(),
    ensures
        result_views(again@) == reranked(result_views(results@), scores@),
{
    let ghost all = result_views(results@);
    let mut head: Vec<SearchResult> = Vec::new();
    let mut i: usize = 0;
    while i < scores.len()
        invariant
            i <= scores@.len() <= results@.len(),
            head@.len() == i,
            forall|k: int| 0 <= k < i ==> (#[trigger] head@[k])@ == rescored(results@[k]@, scores@[k]),
        decreases scores@.len() - i,
    {
        let mut r = results[i].duplicate();
        r.score = scores[i];
        head.push(r);
        i = i + 1;
    }
    proof {
        assert(result_views(head@) =~= all_rescored(all.take(scores@.len() as int), scores@));
    }
    let mut again = crate::engine::rank::rank(&head);
    let ghost first = result_views(again@);
    while i < results.len()
        invariant
            scores@.len() <= i <= results@.len(),
            all == result_views(results@),
            result_views(again@) == first + all.subrange(scores@.len() as int, i as int),
        decreases results@.len() - i,
    {
        let ghost before = result_views(again@);
        again.push(results[i].duplicate());
        proof {
            assert(result_views(again@) =~= before.push(results@[i as int]@));
            assert(all.subrange(scores@.len() as int, i + 1) =~= all.subrange(
                scores@.len() as int,
                i as int,
            ).push(all[i as int]));
        }
        i = i + 1;
    }
    proof {
        assert(all.subrange(scores@.len() as int, i as int) =~= all.skip(scores@.len() as int));
    }
    again
}

/// Scoring results anew changes their order and their scores and nothing
/// else: the results are the same ones, each as often as before.
pub proof fn lemma_rerank_keeps_candidates(results: Seq<ResultView>, scores: Seq<i64>)
    requires
        scores.len() <= results.len(),
    ensures
        reranked(results, scores).len() == results.len(),
        reranked(results, scores).map_values(|r: ResultView| unscored(r)).to_multiset()
            == results.map_values(|r: ResultView| unscored(r)).to_multiset(),
{
    let m = scores.len() as int;
    let strip = |r: ResultView| unscored(r);
    let head = results.take(m);
    let tail = results.skip(m);
    let fresh = all_rescored(head, scores);
    lemma_ranking_descends(fresh);
    lemma_map_keeps_multiset(ranked(fresh), fresh, strip);
    assert(fresh.map_values(strip) =~= head.map_values(strip));
    assert(results =~= head + tail);
    assert(results.map_values(strip) =~= head.map_values(strip) + tail.map_values(strip));
    assert(reranked(results, scores).map_values(strip) =~= ranked(fresh).map_values(strip)
        + tail.map_values(strip));
    lemma_multiset_commutative(head.map_values(strip), tail.map_values(strip));
    lemma_multiset_commutative(ranked(fresh).map_values(strip), tail.map_values(strip));
}

/// Whether a query of some mode can be answered.
#[derive(Clone, Copy, Debug, PartialEq, Eq, Structural)]
pub enum Availability {
    Ready,
    /// The mode needs an index and there is none: this is not the same as a
    /// query that found nothing.
    NotIndexed,
}

/// Whether a query of this mode can be answered. Regex and lexical queries
/// never fail for want of an index; semantic and hybrid queries need one.
pub fn availability(mode: SearchMode, indexed: bool) -> (a: Availability)
    ensures
        a == if indexed || mode == SearchMode::Regex || mode == SearchMode::Lexical {
            Availability::Ready
        } else {
            Availability::NotIndexed
        },
{
    match mode {
        SearchMode::Regex | SearchMode::Lexical => Availability::Ready,
        SearchMode::Semantic | SearchMode::Hybrid => if indexed {
            Availability::Ready
        } else {
            Availability::NotIndexed
        },
    }
}

/// The files of the results, each once, in the order in which they first
/// occur.
pub open spec fn matched_files(results: Seq<ResultView>) -> Seq<Seq<char>>
    decreases results.len(),
{
    if results.len() == 0 {
        Seq::<Seq<char>>::empty()
    } else {
        let rest = matched_files(results.drop_last());
        if rest.contains(results.last().file) {
            rest
        } else {
            rest.push(results.last().file)
        }
    }
}

/// Those of `files` that are not in `matched`, in their order.
pub open spec fn unmatched_files(files: Seq<Seq<char>>, matched: Seq<Seq<char>>) -> Seq<Seq<char>>
    decreases files.len(),
{
    if files.len() == 0 {
        files
    } else if matched.contains(files.last()) {
        unmatched_files(files.drop_last(), matched)
    } else {
        unmatched_files(files.drop_last(), matched).push(files.last())
    }
}

/// The files with a match. This listing is made of the results of a query,
/// after they were scored and ranked.
pub fn files_with_matches(results: &Vec<SearchResult>) -> (files: Vec<String>)
    ensures
        files.deep_view() == matched_files(result_views(results@)),
{
    let ghost all = result_views(results@);
    let mut files: Vec<String> = Vec::new();
    let mut i: usize = 0;
    proof {
        assert(all.take(0) =~= Seq::<ResultView>::empty());
        assert(files.deep_view() =~= Seq::<Seq<char>>::empty());
    }
    while i < results.len()
        invariant
            i <= results@.len(),
            all == result_views(results@),
            files.deep_view() == matched_files(all.take(i as int)),
        decreases results@.len() - i,
    {
        proof {
            let next = all.take(i + 1);
            assert(next.drop_last() =~= all.take(i as int));
            assert(next.last().file == results@[i as int].file@);
        }
        if !contains_text(&files, results[i].file.as_str()) {
            let ghost before = files.deep_view();
            files.push(results[i].file.clone());
            proof {
                assert(files.deep_view() =~= before.push(results@[i as int].file@));
            }
        }
        i = i + 1;
    }
    proof {
        assert(all.take(i as int) =~= all);
    }
    files
}

/// Those of the files that were searched in which nothing matched.
pub fn files_without_matches(searched: &Vec<String>, results: &Vec<SearchResult>) -> (files: Vec<
    String,
>)
    ensures
        files.deep_view() == unmatched_files(
            searched.deep_view(),
            matched_files(result_views(results@)),
        ),
{
    let matched = files_with_matches(results);
    let ghost all = searched.deep_view();
    let mut files: Vec<String> = Vec::new();
    let mut i: usize = 0;
    proof {
        assert(all.take(0) =~= Seq::<Seq<char>>::empty());
        assert(files.deep_view() =~= Seq::<Seq<char>>::empty());
    }
    while i < searched.len()
        invariant
            i <= searched@.len(),
            all == searched.deep_view(),
            files.deep_view() == unmatched_files(all.take(i as int), matched.deep_view()),
        decreases searched@.len() - i,
    {
        proof {
            let next = all.take(i + 1);
            assert(next.drop_last() =~= all.take(i as int));
            assert(next.last() == searched@[i as int]@);
        }
        if !contains_text(&matched, searched[i].as_str()) {
            let ghost before = files.deep_view();
            files.push(searched[i].clone());
            proof {
                assert(files.deep_view() =~= before.push(searched@[i as int]@));
            }
        }
        i = i + 1;
    }
    proof {
        assert(all.take(i as int) =~= all);
    }
    files
}

} // verus!
