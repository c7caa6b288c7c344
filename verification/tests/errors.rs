use ck_cli::error::{CkError, ErrorContext};
use ck_cli::retry::{RetryPolicy, RetryStep};

#[test]
fn every_error_has_its_message() {
    let e = CkError::IndexingFailed { path: "src".into(), reason: "boom".into(), suggestion: None };
    assert_eq!(e.message(), "❌ Indexing failed for src: boom");
    let e = CkError::IndexingFailed { path: "src".into(), reason: "boom".into(), suggestion: Some("retry".into()) };
    assert_eq!(e.message(), "❌ Indexing failed for src: boom\n💡 Suggestion: retry");
    let e = CkError::ModelDownloadFailed { model: "m".into(), reason: "net".into(), offline_fallback: Some("cache".into()) };
    assert_eq!(e.message(), "❌ Failed to download model 'm': net\n💡 Offline fallback: cache");
    let e = CkError::ModelNotFound { model: "m".into(), available_models: vec!["a".into(), "b".into()] };
    assert_eq!(e.message(), "❌ Model 'm' not found\n📋 Available models:\n  • a\n  • b\n");
    let e = CkError::ModelNotFound { model: "m".into(), available_models: vec![] };
    assert_eq!(e.message(), "❌ Model 'm' not found");
    let e = CkError::InvalidConfiguration { setting: "topk".into(), value: "-1".into(), expected: "a count".into() };
    assert_eq!(e.message(), "❌ Invalid configuration: topk = '-1'\n📋 Expected: a count");
    let e = CkError::FileAccessError { path: "f".into(), operation: "read".into(), reason: "denied".into() };
    assert_eq!(e.message(), "❌ Cannot read file f: denied");
    let e = CkError::NetworkError { operation: "fetch".into(), retry_possible: true, fallback: Some("offline".into()) };
    assert_eq!(e.message(), "❌ Network error during fetch\n🔄 Retry with: ck --retry-downloads\n💡 Fallback: offline");
    let e = CkError::NetworkError { operation: "fetch".into(), retry_possible: false, fallback: None };
    assert_eq!(e.message(), "❌ Network error during fetch");
    let e = CkError::EmbeddingUnavailable { reason: "no model".into() };
    assert_eq!(e.message(), "❌ Embedding unavailable: no model");
}

#[test]
fn failures_gain_context() {
    let failed: Result<u8, String> = Err("denied".to_string());
    match failed.context_path(&"f.txt".to_string(), "open") {
        Err(CkError::FileAccessError { path, operation, reason }) => {
            assert_eq!((path.as_str(), operation.as_str(), reason.as_str()), ("f.txt", "open", "denied"));
        }
        other => panic!("unexpected {:?}", other),
    }
    let failed: Result<u8, String> = Err("timeout".to_string());
    match failed.context_model("m") {
        Err(CkError::ModelDownloadFailed { model, reason, offline_fallback }) => {
            assert_eq!(model, "m");
            assert_eq!(reason, "timeout");
            assert_eq!(offline_fallback.unwrap(), "Use --offline or pre-download to ~/.cache/ck/models/");
        }
        other => panic!("unexpected {:?}", other),
    }
    let failed: Result<u8, String> = Err("bad".to_string());
    match failed.with_suggestion("try again".to_string()) {
        Err(CkError::IndexingFailed { path, reason, suggestion }) => {
            assert_eq!((path.as_str(), reason.as_str()), (".", "bad"));
            assert_eq!(suggestion.unwrap(), "try again");
        }
        other => panic!("unexpected {:?}", other),
    }
    let fine: Result<u8, String> = Ok(7);
    assert_eq!(fine.context_path(&"f".to_string(), "open").unwrap(), 7);
}

#[test]
fn suggestions_attach_to_indexing_failures_only() {
    let failed: Result<u8, CkError> =
        Err(CkError::IndexingFailed { path: "p".into(), reason: "r".into(), suggestion: None });
    match failed.with_suggestion("s".to_string()) {
        Err(CkError::IndexingFailed { path, reason, suggestion }) => {
            assert_eq!((path.as_str(), reason.as_str(), suggestion.unwrap().as_str()), ("p", "r", "s"));
        }
        other => panic!("unexpected {:?}", other),
    }
    let failed: Result<u8, CkError> =
        Err(CkError::NetworkError { operation: "o".into(), retry_possible: false, fallback: None });
    assert!(matches!(failed.with_suggestion("s".to_string()), Err(CkError::NetworkError { .. })));
    let failed: Result<u8, CkError> =
        Err(CkError::NetworkError { operation: "o".into(), retry_possible: false, fallback: None });
    match failed.context_model("m") {
        Err(CkError::ModelDownloadFailed { reason, .. }) => assert_eq!(reason, "❌ Network error during o"),
        other => panic!("unexpected {:?}", other),
    }
    let fine: Result<u8, CkError> = Ok(1);
    assert_eq!(fine.with_suggestion("s".to_string()).unwrap(), 1);
}

#[test]
fn retry_delays_double() {
    let policy = RetryPolicy { max_attempts: 4, base_delay_secs: 1 };
    assert_eq!(policy.first_step(), RetryStep::Attempt { number: 1, delay_secs: 0 });
    assert_eq!(policy.after_failures(1), RetryStep::Attempt { number: 2, delay_secs: 2 });
    assert_eq!(policy.after_failures(2), RetryStep::Attempt { number: 3, delay_secs: 4 });
    assert_eq!(policy.after_failures(3), RetryStep::Attempt { number: 4, delay_secs: 8 });
    assert_eq!(policy.after_failures(4), RetryStep::Exhausted { attempts: 4 });
    assert_eq!(policy.after_failures(9), RetryStep::Exhausted { attempts: 4 });
    let none = RetryPolicy { max_attempts: 0, base_delay_secs: 1 };
    assert_eq!(none.first_step(), RetryStep::Exhausted { attempts: 0 });
    let slow = RetryPolicy { max_attempts: 200, base_delay_secs: 3 };
    assert_eq!(slow.delay_before(1), 0);
    assert_eq!(slow.delay_before(5), 48);
    assert_eq!(slow.delay_before(63), 3 << 62);
    assert_eq!(slow.delay_before(64), u64::MAX);
    assert_eq!(slow.delay_before(150), u64::MAX);
    let idle = RetryPolicy { max_attempts: 200, base_delay_secs: 0 };
    assert_eq!(idle.delay_before(100), 0);
}
