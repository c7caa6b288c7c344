use crate::engine::modes::{
    all_scored, bounds_for, candidate_views, closest_below, effective_bounds, files_with_matches,
    matched_files, score_all, select, selection, Candidate, FusionWeights, SearchMode,
};
use crate::engine::rank::{precedes, ranks_before, result_views, ResultView, SearchResult};
use vstd::prelude::*;

verus! {

/// What a query found, over all the paths it searched.
#[derive(Debug)]
pub struct SearchSummary {
    pub total_matches: usize,
    pub files_with_matches: usize,
    pub files_searched: usize,
    pub search_duration_micros: u64,
    /// The best result that missed the threshold, kept for a query that
    /// found nothing.
    pub closest_below_threshold: Option<SearchResult>,
}

impl SearchSummary {
    /// The summary of a query that has searched nothing yet.
    pub fn new() -> (summary: Self)
        ensures
            summary.total_matches == 0,
            summary.files_with_matches == 0,
            summary.files_searched == 0,
            summary.search_duration_micros == 0,
            summary.closest_below_threshold is None,
    {
        SearchSummary {
            total_matches: 0,
            files_with_matches: 0,
            files_searched: 0,
            search_duration_micros: 0,
            closest_below_threshold: None,
        }
    }

    /// This is the summary of one query that returned `results` after it
    /// searched `searched` files in `duration_micros`: every result is a
    /// match, and a file has matches where a result names it. `closest` is
    /// kept where nothing matched.
    pub open spec fn sums_up(
        self,
        results: Seq<ResultView>,
        searched: nat,
        duration_micros: u64,
        closest: Option<SearchResult>,
    ) -> bool {
        &&& self.total_matches == results.len()
        &&& self.files_with_matches == matched_files(results).len()
        &&& self.files_searched == searched
        &&& self.search_duration_micros == duration_micros
        &&& self.closest_below_threshold == if results.len() == 0 {
            closest
        } else {
            None
        }
    }

    /// The summary of one query over one path.
    pub fn of(
        results: &Vec<SearchResult>,
        searched: &Vec<String>,
        duration_micros: u64,
        closest: Option<SearchResult>,
    ) -> (summary: Self)
        ensures
            summary.sums_up(result_views(results@), searched@.len(), duration_micros, closest),
    {
        let files = files_with_matches(results);
        SearchSummary {
            total_matches: results.len(),
            files_with_matches: files.len(),
            files_searched: searched.len(),
            search_duration_micros: duration_micros,
            closest_below_threshold: if results.len() == 0 {
                closest
            } else {
                None
            },
        }
    }

    /// The counters of `self` and `other` can be added up.
    pub open spec fn can_merge(self, other: SearchSummary) -> bool {
        &&& self.total_matches + other.total_matches <= usize::MAX
        &&& self.files_with_matches + other.files_with_matches <= usize::MAX
        &&& self.files_searched + other.files_searched <= usize::MAX
        &&& self.search_duration_micros + other.search_duration_micros <= u64::MAX
    }

    /// Whether the counters of `self` and `other` can be added up.
    pub fn fits(&self, other: &SearchSummary) -> (ok: bool)
        ensures
            ok == self.can_merge(*other),
    {
        self.total_matches <= usize::MAX - other.total_matches && self.files_with_matches
            <= usize::MAX - other.files_with_matches && self.files_searched <= usize::MAX
            - other.files_searched && self.search_duration_micros <= u64::MAX
            - other.search_duration_micros
    }

    /// Adds the summary of one more path: every counter grows by the other's,
    /// and of the two results that missed the threshold the better one stays.
    pub fn merge(&mut self, other: &SearchSummary)
        requires
            old(self).can_merge(*other),
        ensures
            final(self).total_matches == old(self).total_matches + other.total_matches,
            final(self).files_with_matches == old(self).files_with_matches
                + other.files_with_matches,
            final(self).files_searched == old(self).files_searched + other.files_searched,
            final(self).search_duration_micros == old(self).search_duration_micros
                + other.search_duration_micros,
            match (old(self).closest_below_threshold, other.closest_below_threshold) {
                (None, None) => final(self).closest_below_threshold is None,
                (Some(a), None) => final(self).closest_below_threshold == Some(a),
                (None, Some(b)) => final(self).closest_below_threshold matches Some(c) && c@ == b@,
                (Some(a), Some(b)) => final(self).closest_below_threshold matches Some(c) && c@
                    == if ranks_before(a@, b@) {
                    a@
                } else {
                    b@
                },
            },
    {
        self.total_matches = self.total_matches + other.total_matches;
        self.files_with_matches = self.files_with_matches + other.files_with_matches;
        self.files_searched = self.files_searched + other.files_searched;
        self.search_duration_micros = self.search_duration_micros + other.search_duration_micros;
        match &other.closest_below_threshold {
            None => {},
            Some(b) => {
                let replace = match &self.closest_below_threshold {
                    None => true,
                    Some(a) => !precedes(a, b),
                };
                if replace {
                    self.closest_below_threshold = Some(b.duplicate());
                }
            },
        }
    }

    /// The exit code of a search: 0 when it found a match, 1 when not.
    pub fn exit_code(&self) -> (code: i32)
        ensures
            code == if self.total_matches > 0 {
                0i32
            } else {
                1i32
            },
    {
        if self.total_matches > 0 {
            0
        } else {
            1
        }
    }
}

/// What a query gives back: its results, best first, and their summary.
#[derive(Debug)]
pub struct SearchOutcome {
    pub results: Vec<SearchResult>,
    pub summary: SearchSummary,
}

/// Answers a query of a scoring mode over its candidates, with its summary.
/// Where nothing reaches the threshold, the summary keeps the best result
/// that missed it.
pub fn search_with_summary(
    candidates: &Vec<Candidate>,
    mode: SearchMode,
    weights: FusionWeights,
    topk: Option<usize>,
    threshold: Option<i64>,
    searched: &Vec<String>,
    duration_micros: u64,
) -> (outcome: SearchOutcome)
    ensures
        result_views(outcome.results@) == selection(
            all_scored(candidate_views(candidates@), mode, weights),
            effective_bounds(mode, topk, threshold).0,
            effective_bounds(mode, topk, threshold).1,
        ),
        outcome.summary.total_matches == outcome.results@.len(),
        outcome.summary.files_with_matches == matched_files(result_views(outcome.results@)).len(),
        outcome.summary.files_searched == searched@.len(),
        outcome.summary.search_duration_micros == duration_micros,
        outcome.summary.closest_below_threshold is Some ==> outcome.results@.len() == 0
            && effective_bounds(mode, topk, threshold).0 is Some,
        outcome.results@.len() == 0 ==> match effective_bounds(mode, topk, threshold).0 {
            None => outcome.summary.closest_below_threshold is None,
            Some(t) => {
                let all = all_scored(candidate_views(candidates@), mode, weights);
                &&& outcome.summary.closest_below_threshold is None <==> forall|i: int|
                    0 <= i < all.len() ==> (#[trigger] all[i]).score >= t
                &&& outcome.summary.closest_below_threshold matches Some(c) ==> c.score < t && (
                exists|i: int| 0 <= i < all.len() && #[trigger] all[i] == c@) && (forall|i: int|
                    0 <= i < all.len() && (#[trigger] all[i]).score < t ==> ranks_before(
                        c@,
                        all[i],
                    ))
            },
        },
{
    let bounds = bounds_for(mode, topk, threshold);
    let all = score_all(candidates, mode, weights);
    let results = select(&all, bounds.0, bounds.1);
    let closest = if results.len() == 0 {
        match bounds.0 {
            Some(t) => closest_below(&all, t),
            None => None,
        }
    } else {
        None
    };
    proof {
        let views = all_scored(candidate_views(candidates@), mode, weights);
        assert(views == result_views(all@));
        assert forall|i: int| 0 <= i < all@.len() implies views[i] == (#[trigger] all@[i])@ by {}
        if closest is Some {
            let c = closest->0;
            let k = choose|k: int| 0 <= k < all@.len() && (#[trigger] all@[k])@ == c@;
            assert(views[k] == c@);
        }
        if results@.len() == 0 {
            if let Some(t) = bounds.0 {
                assert forall|i: int| 0 <= i < views.len() implies (views[i].score < t
                    <==> all@[i].score < t) by {
                    assert(views[i] == all@[i]@);
                }
            }
        }
    }
    let summary = SearchSummary::of(&results, searched, duration_micros, closest);
    SearchOutcome { results, summary }
}

} // verus!
