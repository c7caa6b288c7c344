use ck_cli::commands::CommandContext;
use ck_cli::dispatcher::{Cli, CommandDispatcher, Route};
use ck_cli::download::{
    AttemptOutcome, CacheEntry, CacheVerdict, DownloadMove, EmbeddingModel, ModelDownloadConfig,
    ModelDownloader, Platform,
};
use ck_cli::engine::modes::SearchMode;
use ck_cli::retry::RetryStep;

fn cli() -> Cli {
    Cli {
        pattern: None,
        files: vec![],
        index: false,
        reindex: false,
        status: false,
        status_verbose: false,
        clean: false,
        clean_orphans: false,
        add: None,
        inspect: false,
        download_model: None,
        offline: false,
        retry_downloads: false,
        line_numbers: false,
        no_filenames: false,
        with_filenames: false,
        context: None,
        after_context: None,
        before_context: None,
        recursive: false,
        ignore_case: false,
        fixed_strings: false,
        word_regexp: false,
        files_with_matches: false,
        files_without_matches: false,
        regex: false,
        lex: false,
        sem: false,
        hybrid: false,
        json: false,
        jsonl: false,
        topk: None,
        limit: None,
        threshold: None,
        scores: false,
        full_section: false,
        no_snippet: false,
        exclude: vec![],
        no_default_excludes: false,
        no_ignore: false,
        model: None,
        rerank: false,
        rerank_model: None,
        verbose: false,
        quiet: false,
        no_progress: false,
    }
}

#[test]
fn routes_follow_their_precedence() {
    assert_eq!(CommandDispatcher::new(cli()).dispatch(), Route::NoCommand);
    let mut c = cli();
    c.pattern = Some("foo".to_string());
    assert_eq!(CommandDispatcher::new(c).dispatch(), Route::Search);
    let mut c = cli();
    c.pattern = Some("foo".to_string());
    c.inspect = true;
    assert_eq!(CommandDispatcher::new(c).dispatch(), Route::Inspect);
    let mut c = cli();
    c.inspect = true;
    c.add = Some("f".to_string());
    assert_eq!(CommandDispatcher::new(c).dispatch(), Route::AddFile);
    let mut c = cli();
    c.add = Some("f".to_string());
    c.clean_orphans = true;
    assert_eq!(CommandDispatcher::new(c).dispatch(), Route::Clean);
    let mut c = cli();
    c.clean = true;
    c.status_verbose = true;
    assert_eq!(CommandDispatcher::new(c).dispatch(), Route::Status);
    let mut c = cli();
    c.status = true;
    c.reindex = true;
    assert_eq!(CommandDispatcher::new(c).dispatch(), Route::Index);
    let mut c = cli();
    c.index = true;
    c.download_model = Some("m".to_string());
    assert_eq!(CommandDispatcher::new(c).dispatch(), Route::DownloadModel);
}

#[test]
fn commands_are_built_from_the_command_line() {
    let mut c = cli();
    c.files = vec!["src".to_string(), "lib".to_string()];
    c.model = Some("m".to_string());
    c.exclude = vec!["*.tmp".to_string()];
    c.reindex = true;
    c.offline = true;
    c.verbose = true;
    c.no_progress = true;
    c.status_verbose = true;
    c.clean_orphans = true;
    c.sem = true;
    c.lex = true;
    c.limit = Some(5);
    c.threshold = Some(250_000);
    c.line_numbers = true;
    c.rerank_model = Some("r".to_string());
    let d = CommandDispatcher::new(c);
    let ctx = d.context("/work".to_string());
    assert!(ctx.verbose && !ctx.quiet && ctx.no_progress);
    assert_eq!(ctx.working_dir, "/work");

    let index = d.index_command(CommandContext::default());
    assert_eq!(index.path, "src");
    assert_eq!(index.model.as_deref(), Some("m"));
    assert_eq!(index.exclude_patterns, vec!["*.tmp".to_string()]);
    assert!(index.force_rebuild);
    assert_eq!(index.max_retries, 0);

    let added = d.add_file_command(&"one.rs".to_string(), CommandContext::default());
    assert_eq!(added.path, "one.rs");
    assert_eq!(added.max_retries, 3);
    assert!(!added.force_rebuild && added.exclude_patterns.is_empty());

    let status = d.status_command(CommandContext::default());
    assert_eq!(status.path, "src");
    assert!(status.verbose);
    let clean = d.clean_command(CommandContext::default());
    assert!(clean.orphans_only);
    let inspect = d.inspect_command(CommandContext::default()).unwrap();
    assert_eq!(inspect.file_path, "src");
    assert_eq!(inspect.model.as_deref(), Some("m"));

    let search = d.search_command("foo", d.context(".".to_string()));
    assert_eq!(search.pattern, "foo");
    assert_eq!(search.paths, vec!["src".to_string(), "lib".to_string()]);
    assert_eq!(search.mode, SearchMode::Semantic);
    assert_eq!(search.options.topk, Some(5));
    assert_eq!(search.options.threshold, Some(250_000));
    assert!(search.options.line_numbers);
    assert_eq!(search.options.exclude, vec!["*.tmp".to_string()]);
    assert_eq!(search.options.rerank_model.as_deref(), Some("r"));
    assert!(search.context.verbose);
}

#[test]
fn defaults_fill_what_the_command_line_leaves_out() {
    let mut c = cli();
    c.hybrid = true;
    c.topk = Some(3);
    c.limit = Some(9);
    let d = CommandDispatcher::new(c);
    assert_eq!(d.index_command(CommandContext::default()).path, ".");
    assert_eq!(d.index_command(CommandContext::default()).max_retries, 3);
    assert_eq!(d.inspect_command(CommandContext::default()).err().unwrap(), "--inspect requires a file path");
    let search = d.search_command("x", CommandContext::default());
    assert_eq!(search.paths, vec![".".to_string()]);
    assert_eq!(search.mode, SearchMode::Hybrid);
    assert_eq!(search.options.topk, Some(3));
    assert_eq!(CommandDispatcher::new(cli()).search_mode(), SearchMode::Regex);
    let mut l = cli();
    l.lex = true;
    l.hybrid = true;
    assert_eq!(CommandDispatcher::new(l).search_mode(), SearchMode::Lexical);
}

#[test]
fn cache_directory_depends_on_the_system() {
    let parts = |p, x, h, l| ModelDownloadConfig::default_cache_dir(p, x, h, l);
    assert_eq!(parts(Platform::Linux, Some("/x"), Some("/h"), None), vec!["/x", "ck", "models"]);
    assert_eq!(parts(Platform::Linux, None, Some("/h"), None), vec!["/h", ".cache", "ck", "models"]);
    assert_eq!(parts(Platform::Linux, None, None, Some("l")), vec![".ck_models", "models"]);
    assert_eq!(parts(Platform::MacOs, Some("/x"), Some("/h"), None), vec!["/h", ".cache", "ck", "models"]);
    assert_eq!(parts(Platform::MacOs, Some("/x"), None, None), vec![".ck_models", "models"]);
    assert_eq!(parts(Platform::Windows, None, Some("/h"), Some("L")), vec!["L", "ck", "cache", "models"]);
    assert_eq!(parts(Platform::Windows, None, Some("/h"), None), vec![".ck_models", "models"]);
    assert_eq!(parts(Platform::Other, Some("/x"), Some("/h"), Some("L")), vec![".ck_models", "models"]);
}

#[test]
fn downloader_decides_from_what_the_cache_shows() {
    let d = ModelDownloader::with_defaults("/cache".to_string());
    assert_eq!(d.config.max_retries, 3);
    assert_eq!(d.config.timeout_secs, 300);
    assert!(!d.config.offline_mode && !d.config.verbose);
    assert_eq!(d.check_model_cached(true, true, false), CacheVerdict::Cached);
    assert_eq!(d.check_model_cached(true, false, true), CacheVerdict::Cached);
    assert_eq!(d.check_model_cached(true, false, false), CacheVerdict::Missing);
    assert_eq!(d.check_model_cached(false, true, true), CacheVerdict::Missing);
    let mut config = ModelDownloadConfig::with_cache_dir("/cache".to_string());
    config.offline_mode = true;
    let offline = ModelDownloader::new(config);
    assert_eq!(offline.check_model_cached(false, false, false), CacheVerdict::Unavailable);
    assert_eq!(offline.check_model_cached(true, true, false), CacheVerdict::Cached);
    assert_eq!(
        offline.offline_miss_message("m"),
        "Model 'm' not found in cache at /cache. Cannot download in offline mode. Please download the model first using: ck --download-model m"
    );
    assert!(offline.validate_offline_setup(&vec!["m".to_string()]).is_ok());
    assert_eq!(
        offline.validate_offline_setup(&vec![]).unwrap_err(),
        "No models found in cache at /cache. Please download at least one model first:\n  ck --download-model BAAI/bge-small-en-v1.5\n  ck --download-model nomic-embed-text-v1.5"
    );
}

#[test]
fn downloads_are_retried_with_growing_waits() {
    let d = ModelDownloader::with_defaults("/cache".to_string());
    let missing = |made| d.download_with_retry("m", CacheVerdict::Missing, made);
    assert!(matches!(missing(0), DownloadMove::Attempt { number: 1, delay_secs: 0 }));
    assert!(matches!(missing(1), DownloadMove::Attempt { number: 2, delay_secs: 2 }));
    assert!(matches!(missing(2), DownloadMove::Attempt { number: 3, delay_secs: 4 }));
    assert!(matches!(missing(3), DownloadMove::GiveUp { attempts: 3 }));
    match d.download_with_retry("m", CacheVerdict::Cached, 0) {
        DownloadMove::UseCache { parts } => assert_eq!(parts, vec!["/cache", "m"]),
        other => panic!("unexpected {:?}", other),
    }
    assert!(matches!(d.download_with_retry("m", CacheVerdict::Cached, 7), DownloadMove::UseCache { .. }));
    match d.download_with_retry("m", CacheVerdict::Unavailable, 0) {
        DownloadMove::Fail { message } => assert_eq!(
            message,
            "Model 'm' not found in cache at /cache. Cannot download in offline mode. Please download the model first using: ck --download-model m"
        ),
        other => panic!("unexpected {:?}", other),
    }
    assert_eq!(d.retry_policy().after_failures(1), RetryStep::Attempt { number: 2, delay_secs: 2 });
    assert_eq!(d.waiting_message(4, 3), "⏳ Waiting 4s before retry 3/3...");
    assert_eq!(d.downloading_message("m", 2), "📥 Downloading model 'm' (attempt 2/3)...");
    assert_eq!(ModelDownloader::downloaded_message("m"), "✅ Model 'm' downloaded successfully");
    assert_eq!(ModelDownloader::attempt_failed_message(2), "⚠️  Download attempt 2 failed");
    assert_eq!(d.exhausted_message(Some("last".to_string())), "last");
    assert_eq!(d.exhausted_message(None), "Failed to download model after 3 attempts");
    assert_eq!(d.try_download("m", AttemptOutcome::Ready).unwrap(), vec!["/cache", "m"]);
    assert_eq!(
        d.try_download("m", AttemptOutcome::InitFailed { reason: "bad".into() }).unwrap_err(),
        "Failed to initialize model: bad"
    );
    assert_eq!(
        d.try_download("m", AttemptOutcome::Panicked { reason: "oops".into() }).unwrap_err(),
        "Task panicked: oops"
    );
    assert_eq!(d.try_download("m", AttemptOutcome::TimedOut).unwrap_err(), "Download timeout after 300s");
}

#[test]
fn model_names_and_cache_listing() {
    assert_eq!(ModelDownloader::parse_model_name("BAAI/bge-small-en-v1.5").unwrap(), EmbeddingModel::BgeSmallEnV15);
    assert_eq!(ModelDownloader::parse_model_name("nomic-embed-text-v1.5").unwrap(), EmbeddingModel::NomicEmbedTextV15);
    assert_eq!(
        ModelDownloader::parse_model_name("jina-embeddings-v2-base-code").unwrap(),
        EmbeddingModel::JinaEmbeddingsV2BaseCode
    );
    assert_eq!(ModelDownloader::parse_model_name("BAAI/bge-base-en-v1.5").unwrap_err(), "Unknown model: BAAI/bge-base-en-v1.5");
    let entry = |name: Option<&str>, is_dir, a, b| CacheEntry {
        name: name.map(|n| n.to_string()),
        is_dir,
        has_model_file: a,
        has_optimized_file: b,
    };
    let entries = vec![
        entry(Some("one"), true, true, false),
        entry(Some("file"), false, true, true),
        entry(Some("empty"), true, false, false),
        entry(None, true, true, true),
        entry(Some("two"), true, false, true),
    ];
    assert_eq!(ModelDownloader::list_cached_models(&entries), vec!["one", "two"]);
    assert!(ModelDownloader::list_cached_models(&vec![]).is_empty());
}
