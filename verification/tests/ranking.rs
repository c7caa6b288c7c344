use ck_cli::engine::modes::{
    availability, closest_below, files_with_matches, files_without_matches, rerank, score_of,
    search_candidates, select, Availability, Candidate, FusionWeights, SearchMode,
};
use ck_cli::engine::order::{lex_side, Side};
use ck_cli::engine::rank::{precedes, rank, SearchResult};
use ck_cli::engine::summary::{search_with_summary, SearchSummary};

fn cand(file: &str, line: usize, lexical: i32, semantic: i32) -> Candidate {
    Candidate {
        file: file.to_string(),
        line_start: line,
        line_end: line + 4,
        preview: format!("{}:{}", file, line),
        lexical,
        semantic,
    }
}

fn res(file: &str, line: usize, score: i64) -> SearchResult {
    SearchResult { file: file.to_string(), line_start: line, line_end: line, preview: String::new(), score }
}

fn keys(results: &Vec<SearchResult>) -> Vec<(String, usize, i64)> {
    results.iter().map(|r| (r.file.clone(), r.line_start, r.score)).collect()
}

const EVEN: FusionWeights = FusionWeights { lexical: 1, semantic: 1 };

#[test]
fn semantic_results_descend_and_respect_threshold_and_topk() {
    let cands = vec![
        cand("a", 1, 0, 700_000),
        cand("b", 1, 0, 950_000),
        cand("c", 1, 0, 599_999),
        cand("d", 1, 0, 600_000),
        cand("e", 1, 0, 800_000),
    ];
    let all = search_candidates(&cands, SearchMode::Semantic, EVEN, None, None);
    assert_eq!(
        keys(&all),
        vec![
            ("b".to_string(), 1, 950_000),
            ("e".to_string(), 1, 800_000),
            ("a".to_string(), 1, 700_000),
            ("d".to_string(), 1, 600_000)
        ]
    );
    let top2 = search_candidates(&cands, SearchMode::Semantic, EVEN, Some(2), Some(750_000));
    assert_eq!(keys(&top2), vec![("b".to_string(), 1, 950_000), ("e".to_string(), 1, 800_000)]);
    let none = search_candidates(&cands, SearchMode::Semantic, EVEN, Some(0), None);
    assert!(none.is_empty());
    let strict = search_candidates(&cands, SearchMode::Semantic, EVEN, None, Some(960_000));
    assert!(strict.is_empty());
}

#[test]
fn semantic_default_limit_is_ten() {
    let mut cands = Vec::new();
    for i in 0..15 {
        cands.push(cand("f", i + 1, 0, 900_000 - i as i32));
    }
    let out = search_candidates(&cands, SearchMode::Semantic, EVEN, None, None);
    assert_eq!(out.len(), 10);
    assert_eq!(out[0].line_start, 1);
    assert_eq!(out[9].line_start, 10);
    let lexical = search_candidates(&cands, SearchMode::Lexical, EVEN, None, None);
    assert_eq!(lexical.len(), 15);
}

#[test]
fn ties_are_broken_by_file_then_line() {
    let cands = vec![cand("b", 9, 5, 0), cand("a", 20, 5, 0), cand("a", 3, 5, 0), cand("c", 1, 7, 0)];
    let out = search_candidates(&cands, SearchMode::Lexical, EVEN, None, None);
    assert_eq!(
        keys(&out),
        vec![("c".to_string(), 1, 7), ("a".to_string(), 3, 5), ("a".to_string(), 20, 5), ("b".to_string(), 9, 5)]
    );
}

#[test]
fn hybrid_fusion_ignores_candidate_order() {
    let weights = FusionWeights { lexical: 3, semantic: 7 };
    let a = vec![cand("x", 1, 10, 500), cand("y", 1, 500, 10), cand("z", 1, 100, 100), cand("w", 1, 100, 100)];
    let b = vec![cand("w", 1, 100, 100), cand("z", 1, 100, 100), cand("y", 1, 500, 10), cand("x", 1, 10, 500)];
    let ra = search_candidates(&a, SearchMode::Hybrid, weights, None, None);
    let rb = search_candidates(&b, SearchMode::Hybrid, weights, None, None);
    assert_eq!(keys(&ra), keys(&rb));
    assert_eq!(
        keys(&ra),
        vec![("x".to_string(), 1, 3530), ("y".to_string(), 1, 1570), ("w".to_string(), 1, 1000), ("z".to_string(), 1, 1000)]
    );
    assert_eq!(score_of(&a[0], SearchMode::Hybrid, weights), 3 * 10 + 7 * 500);
    assert_eq!(score_of(&cand("x", 1, i32::MIN, i32::MIN), SearchMode::Hybrid, FusionWeights { lexical: 255, semantic: 255 }), 2 * 255 * (i32::MIN as i64));
    assert_eq!(score_of(&a[0], SearchMode::Lexical, weights), 10);
    assert_eq!(score_of(&a[0], SearchMode::Semantic, weights), 500);
    assert_eq!(score_of(&a[0], SearchMode::Regex, weights), 0);
}

#[test]
fn rank_sorts_and_select_cuts() {
    let results = vec![res("b", 1, 5), res("a", 2, 9), res("a", 1, 9), res("c", 1, -3)];
    let ranked = rank(&results);
    assert_eq!(
        keys(&ranked),
        vec![("a".to_string(), 1, 9), ("a".to_string(), 2, 9), ("b".to_string(), 1, 5), ("c".to_string(), 1, -3)]
    );
    assert_eq!(select(&results, Some(5), None).len(), 3);
    assert_eq!(select(&results, None, Some(1)).len(), 1);
    assert_eq!(select(&results, None, Some(10)).len(), 4);
    assert!(precedes(&results[1], &results[0]));
    assert!(!precedes(&results[0], &results[1]));
    assert!(precedes(&results[0], &results[0]));
}

#[test]
fn rerank_reorders_the_head_only() {
    let ranked = vec![res("a", 1, 90), res("b", 1, 80), res("c", 1, 70), res("d", 1, 60)];
    let again = rerank(&ranked, &vec![1, 5, 3]);
    assert_eq!(
        keys(&again),
        vec![("b".to_string(), 1, 5), ("c".to_string(), 1, 3), ("a".to_string(), 1, 1), ("d".to_string(), 1, 60)]
    );
    let same = rerank(&ranked, &vec![]);
    assert_eq!(keys(&same), keys(&ranked));
}

#[test]
fn closest_below_is_the_best_miss() {
    let results = vec![res("a", 1, 700), res("b", 1, 400), res("c", 1, 550), res("d", 1, 550)];
    let best = closest_below(&results, 600).unwrap();
    assert_eq!((best.file.as_str(), best.score), ("c", 550));
    assert!(closest_below(&results, 400).is_none());
    assert!(closest_below(&vec![], 400).is_none());
}

#[test]
fn byte_strings_compare_like_a_dictionary() {
    assert_eq!(lex_side(b"abc", b"abd"), Side::Before);
    assert_eq!(lex_side(b"abc", b"abc"), Side::Same);
    assert_eq!(lex_side(b"abc", b"ab"), Side::After);
    assert_eq!(lex_side(b"", b"a"), Side::Before);
    assert_eq!(lex_side(b"b", b"abc"), Side::After);
}

#[test]
fn summaries_add_up() {
    let mut total = SearchSummary::new();
    let mut one = SearchSummary::new();
    one.total_matches = 3;
    one.files_with_matches = 2;
    one.files_searched = 10;
    one.search_duration_micros = 500;
    one.closest_below_threshold = Some(res("a", 1, 300));
    let mut two = SearchSummary::new();
    two.total_matches = 4;
    two.files_with_matches = 1;
    two.files_searched = 5;
    two.search_duration_micros = 250;
    two.closest_below_threshold = Some(res("b", 1, 400));
    assert_eq!(total.exit_code(), 1);
    assert!(total.fits(&one));
    total.merge(&one);
    total.merge(&two);
    assert_eq!(total.total_matches, 7);
    assert_eq!(total.files_with_matches, 3);
    assert_eq!(total.files_searched, 15);
    assert_eq!(total.search_duration_micros, 750);
    assert_eq!(total.closest_below_threshold.as_ref().unwrap().file, "b");
    assert_eq!(total.exit_code(), 0);
    let mut big = SearchSummary::new();
    big.total_matches = usize::MAX;
    assert!(!big.fits(&one));
}

#[test]
fn only_index_modes_need_an_index() {
    assert_eq!(availability(SearchMode::Regex, false), Availability::Ready);
    assert_eq!(availability(SearchMode::Lexical, false), Availability::Ready);
    assert_eq!(availability(SearchMode::Semantic, false), Availability::NotIndexed);
    assert_eq!(availability(SearchMode::Hybrid, false), Availability::NotIndexed);
    assert_eq!(availability(SearchMode::Semantic, true), Availability::Ready);
    assert_eq!(availability(SearchMode::Hybrid, true), Availability::Ready);
}

#[test]
fn files_are_listed_after_ranking() {
    let results = rank(&vec![res("b", 1, 5), res("a", 2, 9), res("b", 7, 9), res("a", 1, 1)]);
    assert_eq!(files_with_matches(&results), vec!["a", "b"]);
    let searched = vec!["c".to_string(), "a".to_string(), "d".to_string(), "b".to_string()];
    assert_eq!(files_without_matches(&searched, &results), vec!["c", "d"]);
    assert!(files_with_matches(&vec![]).is_empty());
    assert_eq!(files_without_matches(&searched, &vec![]), searched);
}

#[test]
fn a_query_comes_with_its_summary() {
    let results = vec![res("b", 1, 5), res("a", 2, 9), res("b", 7, 9)];
    let searched = vec!["a".to_string(), "b".to_string(), "c".to_string(), "d".to_string()];
    let summary = SearchSummary::of(&results, &searched, 120, Some(res("z", 1, 1)));
    assert_eq!(summary.total_matches, 3);
    assert_eq!(summary.files_with_matches, 2);
    assert_eq!(summary.files_searched, 4);
    assert_eq!(summary.search_duration_micros, 120);
    assert!(summary.closest_below_threshold.is_none());
    let empty = SearchSummary::of(&vec![], &searched, 7, Some(res("z", 1, 1)));
    assert_eq!((empty.total_matches, empty.files_with_matches, empty.files_searched), (0, 0, 4));
    assert_eq!(empty.closest_below_threshold.unwrap().file, "z");

    let cands = vec![cand("a", 1, 0, 700_000), cand("a", 9, 0, 650_000), cand("b", 1, 0, 500_000)];
    let found = search_with_summary(&cands, SearchMode::Semantic, EVEN, None, None, &searched, 50);
    assert_eq!(found.results.len(), 2);
    assert_eq!(found.summary.total_matches, 2);
    assert_eq!(found.summary.files_with_matches, 1);
    assert_eq!(found.summary.files_searched, 4);
    assert!(found.summary.closest_below_threshold.is_none());
    let missed =
        search_with_summary(&cands, SearchMode::Semantic, EVEN, None, Some(900_000), &searched, 50);
    assert!(missed.results.is_empty());
    assert_eq!(missed.summary.total_matches, 0);
    assert_eq!(missed.summary.exit_code(), 1);
    let closest = missed.summary.closest_below_threshold.unwrap();
    assert_eq!((closest.file.as_str(), closest.line_start, closest.score), ("a", 1, 700_000));
    let lexical = search_with_summary(&cands, SearchMode::Lexical, EVEN, Some(0), None, &searched, 50);
    assert!(lexical.results.is_empty());
    assert!(lexical.summary.closest_below_threshold.is_none());
}

#[test]
fn candidate_order_is_immaterial_with_a_threshold() {
    let weights = FusionWeights { lexical: 2, semantic: 5 };
    let a = vec![cand("x", 1, 10, 500), cand("y", 1, 500, 10), cand("z", 1, 100, 100), cand("w", 1, 1, 1)];
    let b = vec![cand("w", 1, 1, 1), cand("z", 1, 100, 100), cand("x", 1, 10, 500), cand("y", 1, 500, 10)];
    let ra = search_candidates(&a, SearchMode::Hybrid, weights, Some(2), Some(700));
    let rb = search_candidates(&b, SearchMode::Hybrid, weights, Some(2), Some(700));
    assert_eq!(keys(&ra), keys(&rb));
    assert_eq!(keys(&ra), vec![("x".to_string(), 1, 2520), ("y".to_string(), 1, 1050)]);
}
