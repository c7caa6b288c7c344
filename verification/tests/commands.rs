use ck_cli::commands::clean::{CleanCommand, CleanStep, SweepReport};
use ck_cli::commands::index::{DownloadStep, EmbeddingProgress, IndexCommand};
use ck_cli::commands::inspect::{count_lines, ChunkInfo, InspectCommand};
use ck_cli::commands::search::{cut_at, OutputLine, SearchCommand, SearchOptions, SummaryNotice};
use ck_cli::commands::status::{StatusCommand, StatusReport};
use ck_cli::commands::{Command, CommandContext, PathKind};
use ck_cli::engine::modes::SearchMode;
use ck_cli::engine::rank::SearchResult;
use ck_cli::engine::stats::IndexStats;
use ck_cli::engine::summary::SearchSummary;

#[test]
fn context_starts_plain() {
    let c = CommandContext::default();
    assert!(!c.verbose && !c.quiet && !c.no_progress);
    assert_eq!(c.working_dir, ".");
}

#[test]
fn clean_asks_before_a_full_wipe() {
    let full = CleanCommand::new("p".to_string());
    assert_eq!(full.name(), "clean");
    assert!(full.validate().is_ok());
    assert_eq!(full.first_step(), CleanStep::AskConfirmation);
    assert_eq!(full.after_answer(Some("y\n")), CleanStep::WipeIndex);
    assert_eq!(full.after_answer(Some("Y")), CleanStep::WipeIndex);
    assert_eq!(full.after_answer(Some("no")), CleanStep::Cancelled);
    assert_eq!(full.after_answer(Some("")), CleanStep::Cancelled);
    assert_eq!(full.after_answer(None), CleanStep::Cancelled);
    let mut quiet = CleanCommand::new("p".to_string());
    quiet.context.quiet = true;
    assert_eq!(quiet.first_step(), CleanStep::AskConfirmation);
    assert_eq!(quiet.after_answer(None), CleanStep::Cancelled);
    assert_eq!(quiet.after_answer(Some("y")), CleanStep::WipeIndex);
    let sweep = CleanCommand::new("p".to_string()).orphans_only();
    assert_eq!(sweep.path, "p");
    assert_eq!(sweep.name(), "clean-orphans");
    assert_eq!(sweep.first_step(), CleanStep::SweepOrphans);
    assert_eq!(CleanCommand::sweep_report(0), SweepReport::NothingFound);
    assert_eq!(CleanCommand::sweep_report(3), SweepReport::Removed { count: 3 });
}

#[test]
fn index_validates_its_model() {
    let mut cmd = IndexCommand::new("p".to_string());
    assert_eq!(cmd.name(), "index");
    assert_eq!(cmd.max_retries, 3);
    assert!(cmd.model.is_none() && cmd.exclude_patterns.is_empty() && !cmd.force_rebuild);
    assert!(cmd.validate().is_ok());
    assert_eq!(cmd.model_name(), "nomic-embed-text-v1.5");
    cmd.model = Some("BAAI/bge-small-en-v1.5".to_string());
    assert!(cmd.validate().is_ok());
    assert_eq!(cmd.model_name(), "BAAI/bge-small-en-v1.5");
    cmd.model = Some("nope".to_string());
    assert_eq!(
        cmd.validate().unwrap_err(),
        "❌ Model 'nope' not found\n📋 Available models: BAAI/bge-small-en-v1.5, nomic-embed-text-v1.5, jina-embeddings-v2-base-code, sentence-transformers/all-MiniLM-L6-v2, BAAI/bge-base-en-v1.5, BAAI/bge-large-en-v1.5"
    );
    assert!(cmd.check_target(PathKind::File).is_ok());
    assert!(cmd.check_target(PathKind::Directory).is_ok());
    assert_eq!(cmd.check_target(PathKind::Missing).unwrap_err(), "❌ Path does not exist: p");
    assert_eq!(cmd.check_target(PathKind::Other).unwrap_err(), "❌ Path is neither a file nor directory: p");
}

#[test]
fn index_asks_for_its_update() {
    let mut cmd = IndexCommand::new("repo".to_string());
    cmd.exclude_patterns = vec!["*.tmp".to_string(), "target".to_string()];
    cmd.force_rebuild = true;
    let request = cmd.update_request();
    assert_eq!(request.root, "repo");
    assert!(request.force_rebuild && request.respect_ignore);
    assert_eq!(request.excludes, vec!["*.tmp".to_string(), "target".to_string()]);
    assert_eq!(request.model, "nomic-embed-text-v1.5");
    cmd.model = Some("BAAI/bge-small-en-v1.5".to_string());
    cmd.force_rebuild = false;
    let request = cmd.update_request();
    assert_eq!(request.model, "BAAI/bge-small-en-v1.5");
    assert!(!request.force_rebuild);
}

#[test]
fn index_download_steps() {
    let mut cmd = IndexCommand::new("p".to_string());
    match cmd.download_step(0) {
        DownloadStep::Attempt { number, delay_secs, notice } => {
            assert_eq!((number, delay_secs), (1, 0));
            assert!(notice.is_none());
        }
        other => panic!("unexpected {:?}", other),
    }
    match cmd.download_step(2) {
        DownloadStep::Attempt { number, delay_secs, notice } => {
            assert_eq!((number, delay_secs), (3, 4));
            assert_eq!(notice.unwrap(), "🔄 Retry attempt 3/3 for model download");
        }
        other => panic!("unexpected {:?}", other),
    }
    assert!(matches!(cmd.download_step(3), DownloadStep::GiveUp));
    cmd.context.quiet = true;
    match cmd.download_step(1) {
        DownloadStep::Attempt { number, delay_secs, notice } => {
            assert_eq!((number, delay_secs), (2, 2));
            assert!(notice.is_none());
        }
        other => panic!("unexpected {:?}", other),
    }
    cmd.max_retries = 0;
    assert!(matches!(cmd.download_step(0), DownloadStep::CacheOnly));
    assert_eq!(
        IndexCommand::cache_miss_message("m"),
        "❌ Model 'm' not found in cache.\n💡 Download the model first: ck --download-model m"
    );
    cmd.max_retries = 3;
    assert_eq!(
        cmd.download_failure_message("m", Some("refused")),
        "❌ Failed to download model 'm' after 3 attempts: refused\n💡 Pre-download the model manually or use --offline mode with cached models"
    );
    assert_eq!(
        cmd.download_failure_message("m", None),
        "❌ Failed to download model 'm' after 3 attempts: Unknown error\n💡 Pre-download the model manually or use --offline mode with cached models"
    );
}

#[test]
fn index_progress_messages() {
    assert_eq!(IndexCommand::file_message("src/a/b.rs"), "Processing b.rs");
    assert_eq!(IndexCommand::done_message(12), "✅ Indexed 12 files");
    assert_eq!(IndexCommand::update_failure_message("disk full"), "Indexing failed: disk full");
    let progress = EmbeddingProgress { file_name: "b.rs".to_string(), chunk_index: 2, total_chunks: 7 };
    let first = IndexCommand::chunk_update(None, &progress);
    assert_eq!(first.restart_with_length, Some(7));
    assert_eq!(first.position, 2);
    assert_eq!(first.message, "b.rs (chunk 3/7)");
    let next = IndexCommand::chunk_update(Some(7), &progress);
    assert_eq!(next.restart_with_length, None);
    let other = IndexCommand::chunk_update(Some(9), &progress);
    assert_eq!(other.restart_with_length, Some(7));
}

#[test]
fn inspect_summarizes_chunks() {
    let cmd = InspectCommand::new("f.rs".to_string()).with_model("m".to_string());
    assert_eq!(cmd.name(), "inspect");
    assert_eq!(cmd.model_name(), "m");
    assert_eq!(InspectCommand::new("f.rs".to_string()).model_name(), "nomic-embed-text-v1.5");
    assert!(cmd.check_target(PathKind::File).is_ok());
    assert_eq!(cmd.check_target(PathKind::Missing).unwrap_err(), "File not found: f.rs");
    assert_eq!(cmd.check_target(PathKind::Directory).unwrap_err(), "Not a file: f.rs");
    assert_eq!(cmd.validate_target(PathKind::Missing).unwrap_err(), "File does not exist: f.rs");
    assert!(cmd.validate_target(PathKind::Directory).is_ok());

    let content = "fn a() {}\n\nfn b() {\n}\n";
    let chunks = vec![
        ChunkInfo { text: "fn a() {}\n".into(), line_start: 1, line_end: 1, symbol_kind: Some("function".into()), tokens: 4 },
        ChunkInfo { text: "\n  fn b() {\n}\n".into(), line_start: 3, line_end: 4, symbol_kind: None, tokens: 9 },
        ChunkInfo { text: "".into(), line_start: 5, line_end: 5, symbol_kind: None, tokens: 2 },
    ];
    let report = InspectCommand::summarize(content, 15, &chunks);
    assert_eq!(report.line_count, 4);
    assert_eq!(report.byte_count, content.len());
    assert_eq!(report.token_count, 15);
    assert_eq!(report.chunk_count, 3);
    assert_eq!((report.min_tokens, report.max_tokens, report.total_tokens), (2, 9, 15));
    assert_eq!(report.rows[0].number, 1);
    assert_eq!(report.rows[0].label, "function: ");
    assert_eq!(report.rows[0].preview, "fn a() {}");
    assert_eq!(report.rows[1].label, "text: ");
    assert_eq!(report.rows[1].preview, "fn b() {");
    assert_eq!((report.rows[1].line_start, report.rows[1].line_end, report.rows[1].tokens), (3, 4, 9));
    assert_eq!(report.rows[2].preview, "");
    let empty = InspectCommand::summarize("", 0, &vec![]);
    assert_eq!((empty.line_count, empty.chunk_count, empty.min_tokens, empty.max_tokens, empty.total_tokens), (0, 0, 0, 0, 0));
    for text in ["", "a", "a\n", "a\nb", "\n", "\n\n", "a\r\nb\r\n"] {
        assert_eq!(count_lines(text), text.lines().count());
    }
}

fn stats(total_files: usize, orphans: usize) -> IndexStats {
    IndexStats {
        files_indexed: 0,
        files_skipped: 0,
        chunks_created: 0,
        total_files,
        total_chunks: 40,
        index_size_bytes: 2048,
        last_modified: 9,
        orphaned_files: (0..orphans).map(|i| format!("o{}", i)).collect(),
    }
}

#[test]
fn status_reports_what_the_index_holds() {
    let mut cmd = StatusCommand::new("p".to_string());
    assert_eq!(cmd.name(), "status");
    assert!(cmd.validate().is_ok());
    assert!(matches!(cmd.report(&stats(0, 0)), StatusReport::NoIndex));
    match cmd.report(&stats(5, 3)) {
        StatusReport::Summary { total_files, total_chunks, details } => {
            assert_eq!((total_files, total_chunks), (5, 40));
            assert!(details.is_none());
        }
        other => panic!("unexpected {:?}", other),
    }
    cmd.verbose = true;
    match cmd.report(&stats(5, 12)) {
        StatusReport::Summary { details: Some(d), .. } => {
            assert_eq!((d.index_size_bytes, d.last_modified), (2048, 9));
            let listing = d.orphans.unwrap();
            assert_eq!(listing.count, 12);
            assert_eq!(listing.listed.len(), 10);
            assert_eq!(listing.listed[9], "o9");
            assert_eq!(listing.more, 2);
        }
        other => panic!("unexpected {:?}", other),
    }
    match cmd.report(&stats(5, 10)) {
        StatusReport::Summary { details: Some(d), .. } => {
            let listing = d.orphans.unwrap();
            assert_eq!((listing.listed.len(), listing.more), (10, 0));
        }
        other => panic!("unexpected {:?}", other),
    }
    match cmd.report(&stats(5, 0)) {
        StatusReport::Summary { details: Some(d), .. } => assert!(d.orphans.is_none()),
        other => panic!("unexpected {:?}", other),
    }
}

fn result(file: &str, line: usize) -> SearchResult {
    SearchResult { file: file.to_string(), line_start: line, line_end: line, preview: "p".to_string(), score: 1_000_000 }
}

#[test]
fn search_command_checks_and_formats() {
    let cmd = SearchCommand::new("foo".to_string(), vec![]);
    assert_eq!(cmd.name(), "search");
    assert_eq!(cmd.mode, SearchMode::Regex);
    assert!(cmd.validate().is_ok());
    assert_eq!(cmd.search_paths(), vec![".".to_string()]);
    assert!(cmd.announcement().is_none());
    assert_eq!(cmd.location(&result("a.rs", 7)), "a.rs: ");
    assert!(matches!(cmd.output_line(&result("a.rs", 7)), OutputLine::Full));

    let empty = SearchCommand::new(String::new(), vec![]);
    assert_eq!(empty.validate().unwrap_err(), "Search pattern cannot be empty");

    let mut options = SearchOptions::default();
    options.files_with_matches = true;
    options.files_without_matches = true;
    options.line_numbers = true;
    let both = SearchCommand::new("foo".to_string(), vec!["x".to_string(), "y".to_string()]).with_options(options);
    assert_eq!(both.validate().unwrap_err(), "Cannot use both --files-with-matches and --files-without-matches");
    assert_eq!(both.search_paths(), vec!["x".to_string(), "y".to_string()]);
    assert_eq!(both.location(&result("a.rs", 7)), "a.rs:7: ");
    match both.output_line(&result("a.rs", 7)) {
        OutputLine::FileName(f) => assert_eq!(f, "a.rs"),
        other => panic!("unexpected {:?}", other),
    }

    let mut bare = SearchOptions::default();
    bare.no_filename = true;
    bare.files_without_matches = true;
    let cmd = SearchCommand::new("foo".to_string(), vec![]).with_options(bare);
    assert_eq!(cmd.location(&result("a.rs", 7)), "");
    assert!(matches!(cmd.output_line(&result("a.rs", 7)), OutputLine::Nothing));
    let mut numbered = SearchOptions::default();
    numbered.no_filename = true;
    numbered.line_numbers = true;
    numbered.context = Some(2);
    numbered.after_context = Some(5);
    assert_eq!((numbered.lines_before(), numbered.lines_after()), (2, 5));
    let cmd = SearchCommand::new("foo".to_string(), vec![]).with_options(numbered);
    assert_eq!(cmd.location(&result("a.rs", 7)), "7: ");

    let sem = SearchCommand::new("foo".to_string(), vec![]).with_mode(SearchMode::Semantic);
    let notice = sem.announcement().unwrap();
    assert_eq!((notice.topk, notice.threshold), (10, 600_000));
}

#[test]
fn scores_are_coloured_from_red_to_green() {
    assert_eq!(SearchCommand::score_color(0), (255, 0, 0));
    assert_eq!(SearchCommand::score_color(-5), (255, 0, 0));
    assert_eq!(SearchCommand::score_color(1_000_000), (0, 255, 0));
    assert_eq!(SearchCommand::score_color(9_000_000), (0, 255, 0));
    assert_eq!(SearchCommand::score_color(500_000), (128, 127, 0));
}

#[test]
fn matches_are_highlighted_in_regex_mode() {
    let cmd = SearchCommand::new("o+".to_string(), vec![]);
    let pieces = cmd.highlight_match("foo boo");
    let seen: Vec<(&str, bool)> = pieces.iter().map(|p| (p.text.as_str(), p.matched)).collect();
    assert_eq!(seen, vec![("f", false), ("oo", true), (" b", false), ("oo", true), ("", false)]);
    let lexical = SearchCommand::new("o+".to_string(), vec![]).with_mode(SearchMode::Lexical);
    let pieces = lexical.highlight_match("foo");
    assert_eq!(pieces.len(), 1);
    assert_eq!((pieces[0].text.as_str(), pieces[0].matched), ("foo", false));
    let broken = SearchCommand::new("o(".to_string(), vec![]);
    assert_eq!(broken.highlight_match("foo").len(), 1);
    let cut = cut_at("héllo", &vec![(1, 3)]);
    let seen: Vec<(&str, bool)> = cut.iter().map(|p| (p.text.as_str(), p.matched)).collect();
    assert_eq!(seen, vec![("h", false), ("é", true), ("llo", false)]);
    // a match that does not end at a character, or matches out of order: nothing is cut
    for spans in [vec![(1, 2)], vec![(2, 3)], vec![(3, 4), (0, 1)], vec![(3, 9)], vec![(4, 3)]] {
        let whole = cut_at("héllo", &spans);
        assert_eq!(whole.len(), 1);
        assert_eq!((whole[0].text.as_str(), whole[0].matched), ("héllo", false));
    }
    for (text, pattern) in [("héllo wörld", "ö|l+"), ("", "x*"), ("aaa", ""), ("日本語", "本")] {
        let pieces = SearchCommand::new(pattern.to_string(), vec![]).highlight_match(text);
        let joined: String = pieces.iter().map(|p| p.text.as_str()).collect();
        assert_eq!(joined, text);
    }
}

#[test]
fn summary_notice_follows_the_flags() {
    let mut cmd = SearchCommand::new("foo".to_string(), vec![]);
    let mut summary = SearchSummary::new();
    assert_eq!(cmd.summary_notice(&summary), SummaryNotice::NoMatches { with_closest: false });
    summary.closest_below_threshold = Some(result("a", 1));
    assert_eq!(cmd.summary_notice(&summary), SummaryNotice::NoMatches { with_closest: true });
    summary.total_matches = 2;
    summary.files_with_matches = 1;
    summary.files_searched = 4;
    assert_eq!(cmd.summary_notice(&summary), SummaryNotice::Silent);
    cmd.context.verbose = true;
    assert_eq!(
        cmd.summary_notice(&summary),
        SummaryNotice::Found { total_matches: 2, files_with_matches: 1, files_searched: 4 }
    );
    cmd.context.quiet = true;
    assert_eq!(cmd.summary_notice(&summary), SummaryNotice::Silent);
}
