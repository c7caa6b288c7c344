use ck_cli::engine::chunk::{
    check_spans_cover, check_spans_ordered, chunk_regions, regions_tile, window_spans, Region, Span,
};
use ck_cli::engine::fingerprint::{Fingerprint, QuickVerdict, UpdateMode};
use ck_cli::engine::indexer::{plan_update, searchable, SourceFile};
use ck_cli::engine::stats::{rebuild_outcome, FileOutcome, UpdateTally};
use ck_cli::engine::store::{SidecarEntry, Store, SCHEMA_VERSION};
use ck_cli::error::CkError;

fn fp(hash: &str, size: u64, mtime: u64, model: &str) -> Fingerprint {
    Fingerprint { content_hash: hash.to_string(), size, mtime, model_id: model.to_string() }
}

fn entry(source: &str, f: Fingerprint, chunks: usize) -> SidecarEntry {
    let mut spans = Vec::new();
    for i in 0..chunks {
        spans.push(Span { line_start: 10 * i + 1, line_end: 10 * i + 10 });
    }
    SidecarEntry {
        source: source.to_string(),
        fingerprint: f,
        spans,
        embedding_count: Some(chunks),
        schema_version: SCHEMA_VERSION,
        size_bytes: 100,
    }
}

fn file(path: &str, f: Fingerprint) -> SourceFile {
    SourceFile { path: path.to_string(), fingerprint: f }
}

const PLAIN: UpdateMode = UpdateMode { force_rebuild: false, always_hash: false };

#[test]
fn unchanged_changed_and_new_file() {
    let mut store = Store::new();
    store.write(entry("a.rs", fp("ha", 10, 100, "m"), 2));
    store.write(entry("b.rs", fp("hb", 20, 100, "m"), 1));
    let files = vec![
        file("a.rs", fp("ha", 10, 100, "m")),
        file("b.rs", fp("hb2", 21, 200, "m")),
        file("c.rs", fp("hc", 5, 300, "m")),
    ];
    let plan = plan_update(&store, &files, PLAIN);
    assert_eq!(plan.stale, vec![false, true, true]);
    assert_eq!(plan.files_to_index, 2);
    assert_eq!(plan.files_skipped, 1);

    let mut tally = UpdateTally::new();
    for (i, stale) in plan.stale.iter().enumerate() {
        let outcome = if *stale { FileOutcome::Rebuilt { chunks: 3 } } else { FileOutcome::Skipped };
        assert!(tally.fits(outcome));
        tally.record(outcome);
        if *stale {
            store.write(entry(&files[i].path, fp(&files[i].fingerprint.content_hash, files[i].fingerprint.size, files[i].fingerprint.mtime, "m"), 3));
        }
    }
    let present = vec![true; store.entries.len()];
    let stats = tally.finish(".", store.stats(&present, 77).unwrap()).unwrap();
    assert_eq!(stats.files_indexed, 2);
    assert_eq!(stats.files_skipped, 1);
    assert_eq!(stats.chunks_created, 6);
    assert_eq!(stats.total_files, 3);
    assert_eq!(stats.total_chunks, 8);
    assert_eq!(stats.index_size_bytes, 300);
    assert_eq!(stats.last_modified, 77);
    assert!(stats.orphaned_files.is_empty());
}

#[test]
fn second_update_skips_everything() {
    let mut store = Store::new();
    store.write(entry("a.rs", fp("old", 1, 1, "m"), 1));
    let files = vec![file("a.rs", fp("ha", 10, 100, "m")), file("b.rs", fp("hb", 20, 100, "m"))];
    let plan = plan_update(&store, &files, PLAIN);
    assert_eq!(plan.files_to_index, 2);
    for f in &files {
        store.write(entry(&f.path, fp(&f.fingerprint.content_hash, f.fingerprint.size, f.fingerprint.mtime, "m"), 1));
    }
    let sources: Vec<String> = store.entries.iter().map(|e| e.source.clone()).collect();
    let again = plan_update(&store, &files, PLAIN);
    assert_eq!(again.files_skipped, files.len());
    assert_eq!(again.files_to_index, 0);
    assert_eq!(again.stale, vec![false, false]);
    let after: Vec<String> = store.entries.iter().map(|e| e.source.clone()).collect();
    assert_eq!(sources, after);
}

#[test]
fn content_or_model_change_forces_rebuild() {
    let stored = fp("h1", 10, 100, "m");
    let hashed = UpdateMode { force_rebuild: false, always_hash: true };
    // same size and mtime, other content: only a forced hash check sees it
    assert!(Fingerprint::is_stale(Some(&stored), &fp("h2", 10, 100, "m"), hashed));
    assert!(!Fingerprint::is_stale(Some(&stored), &fp("h2", 10, 100, "m"), PLAIN));
    // other size: the hash decides
    assert!(Fingerprint::is_stale(Some(&stored), &fp("h2", 11, 100, "m"), PLAIN));
    // touched but unchanged
    assert!(!Fingerprint::is_stale(Some(&stored), &fp("h1", 10, 999, "m"), PLAIN));
    // other model
    assert!(Fingerprint::is_stale(Some(&stored), &fp("h1", 10, 100, "other"), PLAIN));
    // nothing stored, or forced
    assert!(Fingerprint::is_stale(None, &fp("h1", 10, 100, "m"), PLAIN));
    let forced = UpdateMode { force_rebuild: true, always_hash: false };
    assert!(Fingerprint::is_stale(Some(&stored), &fp("h1", 10, 100, "m"), forced));
    assert!(!Fingerprint::is_stale(Some(&stored), &fp("h1", 10, 100, "m"), PLAIN));
}

#[test]
fn quick_check_defers_to_the_hash() {
    let stored = fp("h1", 10, 100, "m");
    assert_eq!(Fingerprint::quick_check(Some(&stored), 10, 100, "m", PLAIN), QuickVerdict::Reuse);
    assert_eq!(Fingerprint::quick_check(Some(&stored), 10, 101, "m", PLAIN), QuickVerdict::NeedsHash);
    assert_eq!(Fingerprint::quick_check(Some(&stored), 10, 100, "x", PLAIN), QuickVerdict::Rebuild);
    assert_eq!(Fingerprint::quick_check(None, 10, 100, "m", PLAIN), QuickVerdict::Rebuild);
    let hashed = UpdateMode { force_rebuild: false, always_hash: true };
    assert_eq!(Fingerprint::quick_check(Some(&stored), 10, 100, "m", hashed), QuickVerdict::NeedsHash);
    assert!(stored.same_as(&fp("h1", 10, 100, "m")));
    assert!(!stored.same_as(&fp("h1", 10, 100, "n")));
}

#[test]
fn reindex_with_other_model_leaves_no_old_entry() {
    let mut store = Store::new();
    store.write(entry("a.rs", fp("ha", 10, 100, "model-x"), 2));
    store.write(entry("b.rs", fp("hb", 20, 100, "model-x"), 1));
    let files = vec![file("a.rs", fp("ha", 10, 100, "model-y")), file("b.rs", fp("hb", 20, 100, "model-y"))];
    let plan = plan_update(&store, &files, PLAIN);
    assert_eq!(plan.stale, vec![true, true]);
    for f in &files {
        store.write(entry(&f.path, fp(&f.fingerprint.content_hash, f.fingerprint.size, f.fingerprint.mtime, "model-y"), 1));
    }
    assert_eq!(store.entries.len(), 2);
    for e in &store.entries {
        assert_eq!(e.fingerprint.model_id, "model-y");
    }
    assert_eq!(store.read("a.rs").unwrap().fingerprint.model_id, "model-y");
}

#[test]
fn orphan_sweep_removes_exactly_the_orphans() {
    let mut store = Store::new();
    for name in ["a", "b", "c", "d", "e"] {
        store.write(entry(name, fp(name, 1, 1, "m"), 1));
    }
    let present = vec![true, false, true, false, false];
    let stats = store.stats(&present, 0).unwrap();
    assert_eq!(stats.orphaned_files, vec!["b".to_string(), "d".to_string(), "e".to_string()]);
    assert_eq!(stats.total_files, 5);
    let removed = store.clean_orphans(&present);
    assert_eq!(removed, 3);
    let left: Vec<&str> = store.entries.iter().map(|e| e.source.as_str()).collect();
    assert_eq!(left, vec!["a", "c"]);
    assert_eq!(store.read("a").unwrap().fingerprint.content_hash, "a");
    assert!(store.read("b").is_none());
    assert_eq!(store.clean_orphans(&vec![true, true]), 0);
    assert_eq!(store.entries.len(), 2);
    store.clean();
    assert!(store.entries.is_empty());
    assert!(store.read("a").is_none());
}

#[test]
fn write_replaces_the_entry_of_its_source() {
    let mut store = Store::new();
    store.write(entry("a", fp("1", 1, 1, "m"), 1));
    store.write(entry("b", fp("2", 1, 1, "m"), 1));
    store.write(entry("a", fp("3", 1, 1, "m"), 4));
    assert_eq!(store.entries.len(), 2);
    assert_eq!(store.read("a").unwrap().fingerprint.content_hash, "3");
    assert_eq!(store.read("a").unwrap().spans.len(), 4);
    assert_eq!(store.read("b").unwrap().fingerprint.content_hash, "2");
    assert!(store.read("c").is_none());
}

#[test]
fn incomplete_entries_are_told_apart() {
    let good = entry("a", fp("1", 1, 1, "m"), 2);
    assert!(good.is_well_formed());
    let mut old = entry("a", fp("1", 1, 1, "m"), 2);
    old.schema_version = SCHEMA_VERSION + 1;
    assert!(!old.is_well_formed());
    let mut short = entry("a", fp("1", 1, 1, "m"), 2);
    short.embedding_count = Some(1);
    assert!(!short.is_well_formed());
    let mut none = entry("a", fp("1", 1, 1, "m"), 2);
    none.embedding_count = None;
    assert!(none.is_well_formed());
    let mut overlapping = entry("a", fp("1", 1, 1, "m"), 2);
    overlapping.spans[1].line_start = 10;
    assert!(!overlapping.is_well_formed());
}

#[test]
fn windows_tile_the_lines_within_budget() {
    let tokens = vec![3, 3, 3, 10, 1, 1, 20, 2];
    let spans = window_spans(&tokens, 8);
    let expect = vec![
        Span { line_start: 1, line_end: 2 },
        Span { line_start: 3, line_end: 3 },
        Span { line_start: 4, line_end: 4 },
        Span { line_start: 5, line_end: 6 },
        Span { line_start: 7, line_end: 7 },
        Span { line_start: 8, line_end: 8 },
    ];
    assert_eq!(spans, expect);
    assert!(check_spans_ordered(&spans));
    assert!(check_spans_cover(&spans, &vec![true; 8]));
    assert!(window_spans(&vec![], 8).is_empty());
    assert_eq!(window_spans(&vec![0, 0, 0], 0), vec![Span { line_start: 1, line_end: 3 }]);
    assert_eq!(window_spans(&vec![4, 4], 8), vec![Span { line_start: 1, line_end: 2 }]);
}

#[test]
fn span_checks_find_gaps_and_overlaps() {
    let spans = vec![Span { line_start: 1, line_end: 2 }, Span { line_start: 4, line_end: 5 }];
    assert!(check_spans_ordered(&spans));
    assert!(check_spans_cover(&spans, &vec![true, true, false, true, true]));
    assert!(!check_spans_cover(&spans, &vec![true, true, true, true, true]));
    assert!(!check_spans_cover(&spans, &vec![true, true, false, true]));
    assert!(!check_spans_cover(&spans, &vec![true, true, false, true, true, true]));
    assert!(check_spans_cover(&spans, &vec![true, true, false, true, true, false]));
    let overlap = vec![Span { line_start: 1, line_end: 3 }, Span { line_start: 3, line_end: 5 }];
    assert!(!check_spans_ordered(&overlap));
    assert!(!check_spans_ordered(&vec![Span { line_start: 0, line_end: 3 }]));
    assert!(!check_spans_ordered(&vec![Span { line_start: 4, line_end: 3 }]));
    assert!(check_spans_ordered(&vec![]));
}

#[test]
fn update_fails_only_when_nothing_was_processed() {
    let store = Store::new();
    let mut tally = UpdateTally::new();
    tally.record(FileOutcome::Failed);
    tally.record(FileOutcome::Failed);
    match tally.finish("root", store.stats(&vec![], 0).unwrap()) {
        Err(CkError::IndexingFailed { path, reason, suggestion }) => {
            assert_eq!(path, "root");
            assert_eq!(reason, "no file could be processed");
            assert!(suggestion.is_none());
        }
        other => panic!("unexpected {:?}", other),
    }
    let mut mixed = UpdateTally::new();
    mixed.record(FileOutcome::Failed);
    mixed.record(FileOutcome::Skipped);
    let stats = mixed.finish("root", store.stats(&vec![], 0).unwrap()).unwrap();
    assert_eq!(stats.files_skipped, 1);
    assert_eq!(stats.files_indexed, 0);
    let empty = UpdateTally::new().finish("root", store.stats(&vec![], 0).unwrap());
    assert!(empty.is_ok());
    let full = UpdateTally {
        files_indexed: usize::MAX,
        files_skipped: 0,
        files_failed: 0,
        chunks_created: 0,
        files_without_embeddings: 0,
    };
    assert!(!full.fits(FileOutcome::Rebuilt { chunks: 0 }));
    assert!(full.fits(FileOutcome::Skipped));
}

#[test]
fn regions_are_chunked_with_their_symbols() {
    let region = |a, b, symbol| Region { span: Span { line_start: a, line_end: b }, symbol };
    let regions = vec![region(1, 2, None), region(3, 6, Some(0)), region(7, 7, Some(1)), region(8, 9, None)];
    let tokens = vec![1, 1, 5, 5, 5, 5, 50, 2, 2];
    assert!(regions_tile(&regions, 9));
    assert!(!regions_tile(&regions, 10));
    assert!(!regions_tile(&regions, 8));
    assert!(regions_tile(&vec![], 0));
    assert!(!regions_tile(&vec![], 1));
    assert!(!regions_tile(&vec![region(2, 3, None)], 3));
    assert!(!regions_tile(&vec![region(1, 2, None), region(4, 5, None)], 5));
    assert!(!regions_tile(&vec![region(1, 2, None), region(2, 5, None)], 5));
    let chunks = chunk_regions(&regions, &tokens, 10);
    assert_eq!(
        chunks,
        vec![
            region(1, 2, None),
            region(3, 4, Some(0)),
            region(5, 6, Some(0)),
            region(7, 7, Some(1)),
            region(8, 9, None)
        ]
    );
    assert_eq!(chunk_regions(&regions, &tokens, 100), regions);
    assert!(chunk_regions(&vec![], &vec![], 10).is_empty());
}

#[test]
fn loading_drops_incomplete_entries() {
    let mut stale = entry("b", fp("old", 1, 1, "m"), 1);
    stale.schema_version = SCHEMA_VERSION + 1;
    let mut broken = entry("c", fp("c", 1, 1, "m"), 2);
    broken.embedding_count = Some(7);
    let entries = vec![
        entry("a", fp("first", 1, 1, "m"), 1),
        stale,
        entry("a", fp("second", 1, 1, "m"), 1),
        broken,
        entry("d", fp("d", 1, 1, "m"), 1),
        {
            let mut late = entry("d", fp("late", 1, 1, "m"), 1);
            late.schema_version = 0;
            late
        },
    ];
    let store = Store::load(entries);
    assert_eq!(store.entries.len(), 2);
    assert_eq!(store.read("a").unwrap().fingerprint.content_hash, "second");
    assert_eq!(store.read("d").unwrap().fingerprint.content_hash, "d");
    assert!(store.read("b").is_none());
    assert!(store.read("c").is_none());
    assert!(Store::load(vec![]).entries.is_empty());
}

#[test]
fn only_fresh_entries_take_part_in_a_query() {
    let mut store = Store::new();
    store.write(entry("a", fp("a", 1, 1, "x"), 1));
    store.write(entry("b", fp("b", 1, 1, "y"), 1));
    store.write(entry("c", fp("c", 1, 1, "y"), 1));
    store.write(entry("d", fp("d", 1, 1, "y"), 1));
    store.write(entry("e", fp("e", 1, 1, "y"), 1));
    // a was built with another model, c is gone, e has changed
    let files = vec![
        file("a", fp("a", 1, 1, "y")),
        file("b", fp("b", 1, 1, "y")),
        file("d", fp("d", 1, 9, "y")),
        file("e", fp("e2", 2, 9, "y")),
        file("f", fp("f", 1, 1, "y")),
    ];
    assert_eq!(searchable(&store, &files, PLAIN, true), vec![1, 3]);
    assert!(searchable(&store, &vec![], PLAIN, false).is_empty());
    let forced = UpdateMode { force_rebuild: true, always_hash: false };
    assert!(searchable(&store, &files, forced, false).is_empty());
    let mut bare = entry("b", fp("b", 1, 1, "y"), 1);
    bare.embedding_count = None;
    store.write(bare);
    assert_eq!(searchable(&store, &files, PLAIN, true), vec![2]);
    assert_eq!(searchable(&store, &files, PLAIN, false), vec![2, 4]);
}

#[test]
fn a_file_without_embeddings_is_still_indexed() {
    let unavailable = Err(CkError::EmbeddingUnavailable { reason: "no model".to_string() });
    assert_eq!(rebuild_outcome(4, &unavailable), FileOutcome::StructureOnly { chunks: 4 });
    assert_eq!(rebuild_outcome(4, &Ok(())), FileOutcome::Rebuilt { chunks: 4 });
    let broken = Err(CkError::FileAccessError { path: "f".into(), operation: "read".into(), reason: "r".into() });
    assert_eq!(rebuild_outcome(4, &broken), FileOutcome::Failed);
    let mut tally = UpdateTally::new();
    tally.record(rebuild_outcome(4, &unavailable));
    tally.record(FileOutcome::Failed);
    assert_eq!((tally.files_indexed, tally.chunks_created, tally.files_without_embeddings, tally.files_failed), (1, 4, 1, 1));
    let store = Store::new();
    let stats = tally.finish("root", store.stats(&vec![], 0).unwrap()).unwrap();
    assert_eq!(stats.files_indexed, 1);
}
