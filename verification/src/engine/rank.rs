use crate::engine::order::{lemma_lex_carries, lemma_lex_sides, lex_rel, lex_side, Side};
use vstd::prelude::*;
use vstd::relations::{sorted_by, total_ordering};
use vstd::seq_lib::lemma_sorted_unique;
use vstd::utf8::{encode_utf8, encode_utf8_decode_utf8};

verus! {

/// One unit of a score: scores are held in millionths.
pub const SCORE_UNIT: i64 = 1_000_000;

/// The score of an exact match.
pub const EXACT_MATCH_SCORE: i64 = 1_000_000;

/// The lowest score a semantic result may have when the query sets no
/// threshold: 0.6.
pub const DEFAULT_THRESHOLD: i64 = 600_000;

/// How many results a semantic query returns when it sets no limit.
pub const DEFAULT_TOPK: usize = 10;

/// One result of a search. The score is in millionths and compares only with
/// the scores of the same query.
#[derive(Debug)]
pub struct SearchResult {
    pub file: String,
    pub line_start: usize,
    pub line_end: usize,
    pub preview: String,
    pub score: i64,
}

/// A search result as plain values.
pub struct ResultView {
    pub file: Seq<char>,
    pub line_start: usize,
    pub line_end: usize,
    pub preview: Seq<char>,
    pub score: i64,
}

impl View for SearchResult {
    type V = ResultView;

    open spec fn view(&self) -> ResultView {
        ResultView {
            file: self.file@,
            line_start: self.line_start,
            line_end: self.line_end,
            preview: self.preview@,
            score: self.score,
        }
    }
}

/// The results as plain values.
pub open spec fn result_views(results: Seq<SearchResult>) -> Seq<ResultView> {
    Seq::new(results.len(), |i: int| results[i]@)
}

/// How `a` stands to `b` in a ranking: negative when `a` comes first, 0 when
/// the two are the same, positive when `b` comes first. The higher score comes
/// first; equal scores are ordered by file path, then by first line, then by
/// last line, then by preview.
pub open spec fn rank_rel(a: ResultView, b: ResultView) -> int {
    if a.score > b.score {
        -1
    } else if a.score < b.score {
        1
    } else if lex_rel(encode_utf8(a.file), encode_utf8(b.file), 0) != 0 {
        lex_rel(encode_utf8(a.file), encode_utf8(b.file), 0)
    } else if a.line_start < b.line_start {
        -1
    } else if a.line_start > b.line_start {
        1
    } else if a.line_end < b.line_end {
        -1
    } else if a.line_end > b.line_end {
        1
    } else {
        lex_rel(encode_utf8(a.preview), encode_utf8(b.preview), 0)
    }
}

/// `a` comes no later than `b` in a ranking.
pub open spec fn ranks_before(a: ResultView, b: ResultView) -> bool {
    rank_rel(a, b) <= 0
}

/// The order of a ranking.
pub open spec fn rank_order() -> spec_fn(ResultView, ResultView) -> bool {
    |a: ResultView, b: ResultView| ranks_before(a, b)
}

/// The ranking of `results`: the same results, best first.
pub open spec fn ranked(results: Seq<ResultView>) -> Seq<ResultView> {
    results.sort_by(rank_order())
}

/// The order is the same seen from either side, and only equal results stand
/// at 0.
pub proof fn lemma_rank_sides(a: ResultView, b: ResultView)
    ensures
        rank_rel(b, a) == -rank_rel(a, b),
        rank_rel(a, b) == 0 <==> a == b,
{
    let fa = encode_utf8(a.file);
    let fb = encode_utf8(b.file);
    let pa = encode_utf8(a.preview);
    let pb = encode_utf8(b.preview);
    assert(fa.take(0) =~= fb.take(0));
    assert(pa.take(0) =~= pb.take(0));
    lemma_lex_sides(fa, fb, 0);
    lemma_lex_sides(pa, pb, 0);
    encode_utf8_decode_utf8(a.file);
    encode_utf8_decode_utf8(b.file);
    encode_utf8_decode_utf8(a.preview);
    encode_utf8_decode_utf8(b.preview);
}

/// The order carries over from `a` and `b`, and `b` and `c`, to `a` and `c`.
pub proof fn lemma_rank_carries(a: ResultView, b: ResultView, c: ResultView)
    requires
        ranks_before(a, b),
        ranks_before(b, c),
    ensures
        ranks_before(a, c),
{
    let fa = encode_utf8(a.file);
    let fb = encode_utf8(b.file);
    let fc = encode_utf8(c.file);
    let pa = encode_utf8(a.preview);
    let pb = encode_utf8(b.preview);
    let pc = encode_utf8(c.preview);
    assert(fa.take(0) =~= fb.take(0));
    assert(fb.take(0) =~= fc.take(0));
    assert(fa.take(0) =~= fc.take(0));
    assert(pa.take(0) =~= pb.take(0));
    assert(pb.take(0) =~= pc.take(0));
    assert(pa.take(0) =~= pc.take(0));
    lemma_lex_sides(fa, fb, 0);
    lemma_lex_sides(fb, fc, 0);
    lemma_lex_sides(fa, fc, 0);
    lemma_lex_sides(pa, pb, 0);
    lemma_lex_sides(pb, pc, 0);
    lemma_lex_sides(pa, pc, 0);
    if a.score == b.score && b.score == c.score {
        lemma_lex_carries(fa, fb, fc, 0);
        if lex_rel(fa, fc, 0) == 0 {
            // The files of `a` and `c` are the same; so `b` has that file too.
            lemma_lex_carries(fc, fa, fb, 0);
            if a.line_start == c.line_start && a.line_end == c.line_end && a.line_start
                == b.line_start && a.line_end == b.line_end {
                lemma_lex_carries(pa, pb, pc, 0);
            }
        }
    }
}

/// The order of a ranking is total: any two results are ordered, and only a
/// result and itself are ordered both ways.
pub proof fn lemma_rank_order_total()
    ensures
        total_ordering(rank_order()),
{
    let leq = rank_order();
    assert forall|x: ResultView| #[trigger] leq(x, x) by {
        lemma_rank_sides(x, x);
    }
    assert forall|x: ResultView, y: ResultView| #[trigger] leq(x, y) && #[trigger] leq(y, x) implies x
        == y by {
        lemma_rank_sides(x, y);
    }
    assert forall|x: ResultView, y: ResultView, z: ResultView| #[trigger]
        leq(x, y) && #[trigger] leq(y, z) implies leq(x, z) by {
        lemma_rank_carries(x, y, z);
    }
    assert forall|x: ResultView, y: ResultView| #[trigger] leq(x, y) || #[trigger] leq(y, x) by {
        lemma_rank_sides(x, y);
    }
}

/// Whether `a` comes no later than `b` in a ranking.
pub fn precedes(a: &SearchResult, b: &SearchResult) -> (first: bool)
    ensures
        first == ranks_before(a@, b@),
{
    if a.score > b.score {
        return true;
    }
    if a.score < b.score {
        return false;
    }
    match lex_side(a.file.as_str().as_bytes(), b.file.as_str().as_bytes()) {
        Side::Before => true,
        Side::After => false,
        Side::Same => {
            if a.line_start != b.line_start {
                a.line_start < b.line_start
            } else if a.line_end != b.line_end {
                a.line_end < b.line_end
            } else {
                match lex_side(a.preview.as_str().as_bytes(), b.preview.as_str().as_bytes()) {
                    Side::After => false,
                    _ => true,
                }
            }
        },
    }
}

impl SearchResult {
    /// A copy of the result.
    pub fn duplicate(&self) -> (copy: SearchResult)
        ensures
            copy@ == self@,
    {
        SearchResult {
            file: self.file.clone(),
            line_start: self.line_start,
            line_end: self.line_end,
            preview: self.preview.clone(),
            score: self.score,
        }
    }
}

/// Puts `item` into a ranking at its place.
pub fn insert_ranked(ranking: &mut Vec<SearchResult>, item: SearchResult)
    requires
        sorted_by(result_views(old(ranking)@), rank_order()),
    ensures
        sorted_by(result_views(final(ranking)@), rank_order()),
        result_views(final(ranking)@).to_multiset() == result_views(old(ranking)@).to_multiset().insert(
            item@,
        ),
        final(ranking)@.len() == old(ranking)@.len() + 1,
{
    let ghost before = result_views(ranking@);
    let mut j: usize = 0;
    while j < ranking.len() && precedes(&ranking[j], &item)
        invariant
            j <= ranking@.len(),
            ranking@ == old(ranking)@,
            before == result_views(ranking@),
            forall|k: int| 0 <= k < j ==> ranks_before(#[trigger] before[k], item@),
        decreases ranking@.len() - j,
    {
        assert(before[j as int] == ranking@[j as int]@);
        j = j + 1;
    }
    proof {
        if j < ranking@.len() {
            assert(before[j as int] == ranking@[j as int]@);
            lemma_rank_sides(before[j as int], item@);
        }
    }
    ranking.insert(j, item);
    proof {
        let after = result_views(ranking@);
        assert(after =~= before.insert(j as int, item@));
        vstd::seq_lib::to_multiset_insert(before, j as int, item@);
        let leq = rank_order();
        assert forall|a: int, b: int| 0 <= a < b < after.len() implies #[trigger] leq(
            after[a],
            after[b],
        ) by {
            if b < j {
                assert(leq(before[a], before[b]));
            } else if b == j {
                assert(ranks_before(before[a], item@));
            } else if a == j {
                // item comes before before[j], which comes no later than before[b - 1]
                if b - 1 > j {
                    assert(leq(before[j as int], before[b - 1]));
                    lemma_rank_carries(item@, before[j as int], before[b - 1]);
                }
            } else if a < j {
                assert(leq(before[a], before[b - 1]));
            } else {
                assert(leq(before[a - 1], before[b - 1]));
            }
        }
    }
}

/// Ranks `results`: the same results, best first.
pub fn rank(results: &Vec<SearchResult>) -> (ranking: Vec<SearchResult>)
    ensures
        result_views(ranking@) == ranked(result_views(results@)),
{
    let mut ranking: Vec<SearchResult> = Vec::new();
    let ghost all = result_views(results@);
    let mut i: usize = 0;
    proof {
        assert(all.take(0) =~= Seq::<ResultView>::empty());
        assert(result_views(ranking@) =~= Seq::<ResultView>::empty());
    }
    while i < results.len()
        invariant
            i <= results@.len(),
            all == result_views(results@),
            sorted_by(result_views(ranking@), rank_order()),
            result_views(ranking@).to_multiset() == all.take(i as int).to_multiset(),
        decreases results@.len() - i,
    {
        proof {
            assert(all.take(i + 1) =~= all.take(i as int).push(results@[i as int]@));
            vstd::seq_lib::to_multiset_build(all.take(i as int), results@[i as int]@);
        }
        insert_ranked(&mut ranking, results[i].duplicate());
        i = i + 1;
    }
    proof {
        assert(all.take(i as int) =~= all);
        lemma_rank_order_total();
        all.lemma_sort_by_ensures(rank_order());
        lemma_sorted_unique(result_views(ranking@), ranked(all), rank_order());
    }
    ranking
}

/// A ranking does not depend on the order in which the results come in.
pub proof fn lemma_ranking_ignores_input_order(a: Seq<ResultView>, b: Seq<ResultView>)
    requires
        a.to_multiset() == b.to_multiset(),
    ensures
        ranked(a) == ranked(b),
{
    lemma_rank_order_total();
    a.lemma_sort_by_ensures(rank_order());
    b.lemma_sort_by_ensures(rank_order());
    lemma_sorted_unique(ranked(a), ranked(b), rank_order());
}

/// A ranking holds the results it was made from, each as often as it came in,
/// with no score below the score that follows it.
pub proof fn lemma_ranking_descends(results: Seq<ResultView>)
    ensures
        ranked(results).to_multiset() == results.to_multiset(),
        ranked(results).len() == results.len(),
        forall|i: int, j: int|
            0 <= i < j < ranked(results).len() ==> (#[trigger] ranked(results)[i]).score >= (
            #[trigger] ranked(results)[j]).score,
{
    lemma_rank_order_total();
    results.lemma_sort_by_ensures(rank_order());
    vstd::seq_lib::to_multiset_len(results);
    vstd::seq_lib::to_multiset_len(ranked(results));
    let r = ranked(results);
    let leq = rank_order();
    assert forall|i: int, j: int| 0 <= i < j < r.len() implies (#[trigger] r[i]).score >= (
    #[trigger] r[j]).score by {
        assert(leq(r[i], r[j]));
    }
}

} // verus!
