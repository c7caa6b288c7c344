use ck_cli::engine::pattern::{build_pattern, PatternFlags};
use ck_cli::engine::regex_mode::{regex_search, RegexOutcome};
use ck_cli::engine::slicing::{can_slice, slice_text};

fn plain() -> PatternFlags {
    PatternFlags { fixed_strings: false, word_regexp: false, ignore_case: false }
}

#[test]
fn foo_on_lines_two_and_five() {
    let content = "alpha\nfoo here\nbeta\ngamma\nmore foo\nomega\n";
    match regex_search("foo", plain(), "a.txt", content, 0, 0) {
        RegexOutcome::Matches(results) => {
            assert_eq!(results.len(), 2);
            assert_eq!(results[0].line_start, 2);
            assert_eq!(results[0].line_end, 2);
            assert_eq!(results[0].preview, "foo here");
            assert_eq!(results[0].score, 1_000_000);
            assert_eq!(results[0].file, "a.txt");
            assert_eq!(results[1].line_start, 5);
            assert_eq!(results[1].preview, "more foo");
        }
        other => panic!("unexpected outcome {:?}", other),
    }
}

#[test]
fn context_widens_the_preview_only() {
    let content = "one\ntwo\nthree\nfour\nfive";
    match regex_search("three", plain(), "f", content, 1, 1) {
        RegexOutcome::Matches(results) => {
            assert_eq!(results.len(), 1);
            assert_eq!(results[0].line_start, 3);
            assert_eq!(results[0].preview, "two\nthree\nfour");
        }
        other => panic!("unexpected outcome {:?}", other),
    }
    match regex_search("one", plain(), "f", content, 3, 10) {
        RegexOutcome::Matches(results) => {
            assert_eq!(results[0].preview, content);
        }
        other => panic!("unexpected outcome {:?}", other),
    }
}

#[test]
fn invalid_pattern_is_reported() {
    assert!(matches!(regex_search("foo(", plain(), "f", "foo(", 0, 0), RegexOutcome::InvalidPattern));
    let fixed = PatternFlags { fixed_strings: true, word_regexp: false, ignore_case: false };
    match regex_search("foo(", fixed, "f", "x foo( y", 0, 0) {
        RegexOutcome::Matches(results) => assert_eq!(results.len(), 1),
        other => panic!("unexpected outcome {:?}", other),
    }
}

#[test]
fn pattern_is_built_from_flags() {
    let all = PatternFlags { fixed_strings: true, word_regexp: true, ignore_case: true };
    assert_eq!(build_pattern("a.b", all), "(?i)\\b(?:a\\.b)\\b");
    assert_eq!(build_pattern("a.b", plain()), "a.b");
    let fixed = PatternFlags { fixed_strings: true, word_regexp: false, ignore_case: false };
    assert_eq!(build_pattern("\\.+*?()|[]{}^$#&-~x", fixed), "\\\\\\.\\+\\*\\?\\(\\)\\|\\[\\]\\{\\}\\^\\$\\#\\&\\-\\~x");
}

#[test]
fn word_and_case_flags_change_matches() {
    let content = "Foo\nfood\nfoo\n";
    let word = PatternFlags { fixed_strings: false, word_regexp: true, ignore_case: true };
    match regex_search("foo", word, "f", content, 0, 0) {
        RegexOutcome::Matches(results) => {
            assert_eq!(results.len(), 2);
            assert_eq!(results[0].line_start, 1);
            assert_eq!(results[1].line_start, 3);
        }
        other => panic!("unexpected outcome {:?}", other),
    }
}

#[test]
fn slices_on_character_bounds_only() {
    assert_eq!(slice_text("héllo", 0, 3), "hé");
    assert_eq!(slice_text("héllo", 0, 2), "");
    assert_eq!(slice_text("héllo", 2, 3), "");
    assert_eq!(slice_text("héllo", 3, 6), "llo");
    assert_eq!(slice_text("héllo", 3, 7), "");
    assert_eq!(slice_text("héllo", 4, 3), "");
    assert!(can_slice("héllo", 1, 3));
    assert!(!can_slice("héllo", 1, 2));
    assert!(can_slice("héllo", 6, 6));
    assert!(!can_slice("héllo", 6, 7));
}
