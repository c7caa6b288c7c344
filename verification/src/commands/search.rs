use crate::commands::{Command, CommandContext};
use crate::engine::modes::SearchMode;
use crate::engine::pattern::{check_spans_in_order, find_spans, regex_spans, spans_in_order};
use crate::engine::rank::{SearchResult, DEFAULT_THRESHOLD, DEFAULT_TOPK};
use crate::engine::slicing::{
    can_slice, lemma_slices_join, lemma_whole_slice, slice_text, sliceable, text_between,
};
use crate::engine::summary::SearchSummary;
use crate::text::{decimal, decimal_text};
use vstd::prelude::*;
use vstd::utf8::encode_utf8;

verus! {

/// Everything a query can set besides its text, its paths and its mode.
#[derive(Debug)]
pub struct SearchOptions {
    pub line_numbers: bool,
    pub no_filename: bool,
    pub with_filename: bool,
    pub context: Option<usize>,
    pub before_context: Option<usize>,
    pub after_context: Option<usize>,
    pub recursive: bool,
    pub ignore_case: bool,
    pub fixed_strings: bool,
    pub word_regexp: bool,
    pub files_with_matches: bool,
    pub files_without_matches: bool,
    pub json: bool,
    pub jsonl: bool,
    pub topk: Option<usize>,
    /// The lowest score a result may have, in millionths.
    pub threshold: Option<i64>,
    pub show_scores: bool,
    pub full_section: bool,
    pub no_snippet: bool,
    pub exclude: Vec<String>,
    pub no_default_excludes: bool,
    pub no_ignore: bool,
    pub rerank: bool,
    pub rerank_model: Option<String>,
}

impl SearchOptions {
    /// Nothing is set.
    pub open spec fn is_unset(self) -> bool {
        &&& !self.line_numbers && !self.no_filename && !self.with_filename
        &&& self.context is None && self.before_context is None && self.after_context is None
        &&& !self.recursive && !self.ignore_case && !self.fixed_strings && !self.word_regexp
        &&& !self.files_with_matches && !self.files_without_matches
        &&& !self.json && !self.jsonl
        &&& self.topk is None && self.threshold is None
        &&& !self.show_scores && !self.full_section && !self.no_snippet
        &&& self.exclude@.len() == 0
        &&& !self.no_default_excludes && !self.no_ignore
        &&& !self.rerank && self.rerank_model is None
    }

    /// How many lines before a match a preview shows: what is set for the
    /// lines before, else what is set for both sides, else none.
    pub fn lines_before(&self) -> (n: usize)
        ensures
            n == match (self.before_context, self.context) {
                (Some(b), _) => b,
                (None, Some(c)) => c,
                (None, None) => 0,
            },
    {
        match (self.before_context, self.context) {
            (Some(b), _) => b,
            (None, Some(c)) => c,
            (None, None) => 0,
        }
    }

    /// How many lines after a match a preview shows.
    pub fn lines_after(&self) -> (n: usize)
        ensures
            n == match (self.after_context, self.context) {
                (Some(a), _) => a,
                (None, Some(c)) => c,
                (None, None) => 0,
            },
    {
        match (self.after_context, self.context) {
            (Some(a), _) => a,
            (None, Some(c)) => c,
            (None, None) => 0,
        }
    }
}

impl Default for SearchOptions {
    fn default() -> (options: Self)
        ensures
            options.is_unset(),
    {
        SearchOptions {
            line_numbers: false,
            no_filename: false,
            with_filename: false,
            context: None,
            before_context: None,
            after_context: None,
            recursive: false,
            ignore_case: false,
            fixed_strings: false,
            word_regexp: false,
            files_with_matches: false,
            files_without_matches: false,
            json: false,
            jsonl: false,
            topk: None,
            threshold: None,
            show_scores: false,
            full_section: false,
            no_snippet: false,
            exclude: Vec::new(),
            no_default_excludes: false,
            no_ignore: false,
            rerank: false,
            rerank_model: None,
        }
    }
}

/// Runs a query over files or over the index.
pub struct SearchCommand {
    pub pattern: String,
    pub paths: Vec<String>,
    pub mode: SearchMode,
    pub options: SearchOptions,
    pub context: CommandContext,
}

/// What is printed for one result.
#[derive(Debug)]
pub enum OutputLine {
    /// The name of the file and nothing else.
    FileName(String),
    /// The result in full.
    Full,
    /// Nothing.
    Nothing,
}

/// The limits that a semantic query announces before it runs.
#[derive(Clone, Copy, Debug, PartialEq, Eq, Structural)]
pub struct SemanticNotice {
    pub topk: usize,
    pub threshold: i64,
}

/// What is said once a query is done.
#[derive(Clone, Copy, Debug, PartialEq, Eq, Structural)]
pub enum SummaryNotice {
    Silent,
    /// Nothing matched; `with_closest` tells whether a result that missed the
    /// threshold is shown with it.
    NoMatches { with_closest: bool },
    Found { total_matches: usize, files_with_matches: usize, files_searched: usize },
}

/// One stretch of a line of output.
#[derive(Debug)]
pub struct Piece {
    pub text: String,
    /// Whether the stretch is a match and is shown highlighted.
    pub matched: bool,
}

/// A piece as plain values.
pub struct PieceView {
    pub text: Seq<char>,
    pub matched: bool,
}

impl View for Piece {
    type V = PieceView;

    open spec fn view(&self) -> PieceView {
        PieceView { text: self.text@, matched: self.matched }
    }
}

/// The pieces as plain values.
pub open spec fn piece_views(pieces: Seq<Piece>) -> Seq<PieceView> {
    Seq::new(pieces.len(), |i: int| pieces[i]@)
}

/// Whether `text` can be cut at the matches: they lie in order within the
/// text, and each begins and ends where a character begins or the text ends.
pub open spec fn spans_cuttable(text: Seq<char>, spans: Seq<(usize, usize)>) -> bool {
    &&& spans_in_order(spans, encode_utf8(text).len() as int)
    &&& forall|i: int|
        0 <= i < spans.len() ==> sliceable(
            encode_utf8(text),
            (#[trigger] spans[i]).0 as int,
            spans[i].1 as int,
        )
}

/// Where the text begins that follows the first `n` matches.
pub open spec fn end_of_match(spans: Seq<(usize, usize)>, n: int) -> int {
    if 0 < n <= spans.len() {
        spans[n - 1].1 as int
    } else {
        0
    }
}

/// The pieces that the first `n` matches cut `text` into: before each match
/// the plain text since the match before it, then the match.
pub open spec fn pieces_upto(text: Seq<char>, spans: Seq<(usize, usize)>, n: int) -> Seq<PieceView>
    decreases n,
{
    if n <= 0 || n > spans.len() {
        Seq::<PieceView>::empty()
    } else {
        pieces_upto(text, spans, n - 1).push(
            PieceView {
                text: text_between(text, end_of_match(spans, n - 1), spans[n - 1].0 as int),
                matched: false,
            },
        ).push(
            PieceView {
                text: text_between(text, spans[n - 1].0 as int, spans[n - 1].1 as int),
                matched: true,
            },
        )
    }
}

/// All of `text` as one plain piece.
pub open spec fn one_piece(text: Seq<char>) -> Seq<PieceView> {
    seq![PieceView { text, matched: false }]
}

/// The pieces that the matches cut `text` into, the plain text after the last
/// match included. A text that cannot be cut at the matches stays in one
/// plain piece.
pub open spec fn pieces_of(text: Seq<char>, spans: Seq<(usize, usize)>) -> Seq<PieceView> {
    if spans_cuttable(text, spans) {
        pieces_upto(text, spans, spans.len() as int).push(
            PieceView {
                text: text_between(
                    text,
                    end_of_match(spans, spans.len() as int),
                    encode_utf8(text).len() as int,
                ),
                matched: false,
            },
        )
    } else {
        one_piece(text)
    }
}

/// The texts of the pieces, one after the other.
pub open spec fn joined_texts(pieces: Seq<PieceView>) -> Seq<char>
    decreases pieces.len(),
{
    if pieces.len() == 0 {
        Seq::<char>::empty()
    } else {
        joined_texts(pieces.drop_last()) + pieces.last().text
    }
}

proof fn lemma_pieces_upto(text: Seq<char>, spans: Seq<(usize, usize)>, n: int)
    requires
        spans_cuttable(text, spans),
        0 <= n <= spans.len(),
    ensures
        sliceable(encode_utf8(text), 0, end_of_match(spans, n)),
        joined_texts(pieces_upto(text, spans, n)) == text_between(text, 0, end_of_match(spans, n)),
    decreases n,
{
    let bytes = encode_utf8(text);
    lemma_whole_slice(text);
    if n == 0 {
        lemma_slices_join(text, 0, 0, 0);
        assert(text_between(text, 0, 0).len() == 0);
        assert(text_between(text, 0, 0) =~= Seq::<char>::empty());
    } else {
        lemma_pieces_upto(text, spans, n - 1);
        let since = end_of_match(spans, n - 1);
        let span = spans[n - 1];
        if n > 1 {
            assert(spans[n - 2].1 <= spans[n - 2 + 1].0);
        }
        assert(sliceable(bytes, span.0 as int, span.1 as int));
        assert(sliceable(bytes, since, span.0 as int));
        lemma_slices_join(text, 0, since, span.0 as int);
        lemma_slices_join(text, 0, span.0 as int, span.1 as int);
        let before = pieces_upto(text, spans, n - 1);
        let plain = PieceView { text: text_between(text, since, span.0 as int), matched: false };
        let hit = PieceView {
            text: text_between(text, span.0 as int, span.1 as int),
            matched: true,
        };
        let all = pieces_upto(text, spans, n);
        assert(all == before.push(plain).push(hit));
        assert(all.drop_last() =~= before.push(plain));
        assert(before.push(plain).drop_last() =~= before);
        assert(joined_texts(before.push(plain)) == joined_texts(before) + plain.text);
        assert(joined_texts(all) =~= joined_texts(before) + plain.text + hit.text);
    }
}

/// The pieces of a text hold all of it: joined in their order they are the
/// text, whatever the matches are.
pub proof fn lemma_pieces_hold_the_text(text: Seq<char>, spans: Seq<(usize, usize)>)
    ensures
        joined_texts(pieces_of(text, spans)) == text,
{
    if spans_cuttable(text, spans) {
        let n = spans.len() as int;
        let len = encode_utf8(text).len() as int;
        lemma_pieces_upto(text, spans, n);
        lemma_whole_slice(text);
        let since = end_of_match(spans, n);
        if n > 0 {
            assert(sliceable(encode_utf8(text), spans[n - 1].0 as int, spans[n - 1].1 as int));
        }
        lemma_slices_join(text, 0, since, len);
        let before = pieces_upto(text, spans, n);
        let rest = PieceView { text: text_between(text, since, len), matched: false };
        assert(before.push(rest).drop_last() =~= before);
        assert(joined_texts(before.push(rest)) == joined_texts(before) + rest.text);
    } else {
        lemma_one_piece(text);
    }
}

/// One plain piece holds its text.
proof fn lemma_one_piece(text: Seq<char>)
    ensures
        joined_texts(one_piece(text)) == text,
{
    let only = one_piece(text);
    assert(only.last().text == text);
    assert(joined_texts(only.drop_last()) =~= Seq::<char>::empty());
    assert(joined_texts(only) =~= text);
}

/// The red, green and blue of a score: from red at 0 or less to green at one
/// unit or more.
pub open spec fn score_rgb(score: i64) -> (u8, u8, u8) {
    let held = if score < 0 {
        0int
    } else if score > 1_000_000 {
        1_000_000int
    } else {
        score as int
    };
    let green = held * 255 / 1_000_000;
    ((255 - green) as u8, green as u8, 0u8)
}

/// Whether `text` can be cut at the matches.
pub fn check_spans_cuttable(text: &str, spans: &Vec<(usize, usize)>) -> (ok: bool)
    ensures
        ok == spans_cuttable(text@, spans@),
{
    if !check_spans_in_order(spans, text.as_bytes().len()) {
        return false;
    }
    let mut i: usize = 0;
    while i < spans.len()
        invariant
            i <= spans@.len(),
            forall|k: int|
                0 <= k < i ==> sliceable(
                    encode_utf8(text@),
                    (#[trigger] spans@[k]).0 as int,
                    spans@[k].1 as int,
                ),
        decreases spans@.len() - i,
    {
        if !can_slice(text, spans[i].0, spans[i].1) {
            return false;
        }
        i = i + 1;
    }
    true
}

fn cut_all(text: &str, spans: &Vec<(usize, usize)>) -> (pieces: Vec<Piece>)
    ensures
        piece_views(pieces@) == pieces_upto(text@, spans@, spans@.len() as int).push(
            PieceView {
                text: text_between(
                    text@,
                    end_of_match(spans@, spans@.len() as int),
                    encode_utf8(text@).len() as int,
                ),
                matched: false,
            },
        ),
{
    let mut pieces: Vec<Piece> = Vec::new();
    let mut since: usize = 0;
    let mut i: usize = 0;
    proof {
        assert(piece_views(pieces@) =~= pieces_upto(text@, spans@, 0));
    }
    while i < spans.len()
        invariant
            i <= spans@.len(),
            since == end_of_match(spans@, i as int),
            piece_views(pieces@) == pieces_upto(text@, spans@, i as int),
        decreases spans@.len() - i,
    {
        let span = spans[i];
        let ghost before = piece_views(pieces@);
        pieces.push(Piece { text: slice_text(text, since, span.0), matched: false });
        pieces.push(Piece { text: slice_text(text, span.0, span.1), matched: true });
        proof {
            assert(piece_views(pieces@) =~= before.push(
                PieceView { text: text_between(text@, since as int, span.0 as int), matched: false },
            ).push(
                PieceView {
                    text: text_between(text@, span.0 as int, span.1 as int),
                    matched: true,
                },
            ));
        }
        since = span.1;
        i = i + 1;
    }
    let ghost before = piece_views(pieces@);
    let len = text.as_bytes().len();
    pieces.push(Piece { text: slice_text(text, since, len), matched: false });
    proof {
        assert(piece_views(pieces@) =~= before.push(
            PieceView { text: text_between(text@, since as int, len as int), matched: false },
        ));
    }
    pieces
}

/// Cuts `text` at the matches. No text is lost: where a match does not begin
/// and end at a character, or the matches are out of order, the text stays in
/// one plain piece.
pub fn cut_at(text: &str, spans: &Vec<(usize, usize)>) -> (pieces: Vec<Piece>)
    ensures
        piece_views(pieces@) == pieces_of(text@, spans@),
        joined_texts(piece_views(pieces@)) == text@,
{
    proof {
        lemma_pieces_hold_the_text(text@, spans@);
    }
    if check_spans_cuttable(text, spans) {
        cut_all(text, spans)
    } else {
        let mut pieces: Vec<Piece> = Vec::new();
        pieces.push(Piece { text: text.to_owned(), matched: false });
        proof {
            assert(piece_views(pieces@) =~= one_piece(text@));
        }
        pieces
    }
}

impl SearchCommand {
    pub fn new(pattern: String, paths: Vec<String>) -> (command: Self)
        ensures
            command.pattern == pattern,
            command.paths == paths,
            command.mode == SearchMode::Regex,
            command.options.is_unset(),
            command.context.is_initial(),
    {
        SearchCommand {
            pattern,
            paths,
            mode: SearchMode::Regex,
            options: SearchOptions::default(),
            context: CommandContext::default(),
        }
    }

    pub fn with_mode(self, mode: SearchMode) -> (command: Self)
        ensures
            command.mode == mode,
            command.pattern == self.pattern,
            command.paths == self.paths,
            command.options == self.options,
            command.context == self.context,
    {
        let mut command = self;
        command.mode = mode;
        command
    }

    pub fn with_options(self, options: SearchOptions) -> (command: Self)
        ensures
            command.options == options,
            command.pattern == self.pattern,
            command.paths == self.paths,
            command.mode == self.mode,
            command.context == self.context,
    {
        let mut command = self;
        command.options = options;
        command
    }

    /// The paths the query runs over: those it names, or `.` when it names
    /// none.
    pub fn search_paths(&self) -> (paths: Vec<String>)
        ensures
            paths.deep_view() == if self.paths@.len() == 0 {
                seq!["."@]
            } else {
                self.paths.deep_view()
            },
    {
        let mut paths: Vec<String> = Vec::new();
        if self.paths.len() == 0 {
            paths.push(".".to_owned());
            proof {
                assert(paths.deep_view() =~= seq!["."@]);
            }
            return paths;
        }
        let mut i: usize = 0;
        while i < self.paths.len()
            invariant
                i <= self.paths@.len(),
                paths@.len() == i,
                forall|k: int| 0 <= k < i ==> paths@[k]@ == self.paths@[k]@,
            decreases self.paths@.len() - i,
        {
            paths.push(self.paths[i].clone());
            i = i + 1;
        }
        proof {
            assert(paths.deep_view() =~= self.paths.deep_view());
        }
        paths
    }

    /// What a semantic query announces before it runs, unless it runs quietly:
    /// its limit and its threshold, the defaults where it sets none.
    pub fn announcement(&self) -> (notice: Option<SemanticNotice>)
        ensures
            notice == if self.mode == SearchMode::Semantic && !self.context.quiet {
                Some(
                    SemanticNotice {
                        topk: match self.options.topk {
                            Some(k) => k,
                            None => DEFAULT_TOPK,
                        },
                        threshold: match self.options.threshold {
                            Some(t) => t,
                            None => DEFAULT_THRESHOLD,
                        },
                    },
                )
            } else {
                None
            },
    {
        if self.mode == SearchMode::Semantic && !self.context.quiet {
            Some(
                SemanticNotice {
                    topk: match self.options.topk {
                        Some(k) => k,
                        None => DEFAULT_TOPK,
                    },
                    threshold: match self.options.threshold {
                        Some(t) => t,
                        None => DEFAULT_THRESHOLD,
                    },
                },
            )
        } else {
            None
        }
    }

    /// What is printed for `result`: its file alone when only files are
    /// listed, nothing when files without matches are listed, else all of it.
    pub fn output_line(&self, result: &SearchResult) -> (line: OutputLine)
        ensures
            self.options.files_with_matches ==> (line matches OutputLine::FileName(f) && f@
                == result.file@),
            !self.options.files_with_matches && self.options.files_without_matches ==> line
                is Nothing,
            !self.options.files_with_matches && !self.options.files_without_matches ==> line
                is Full,
    {
        if self.options.files_with_matches {
            OutputLine::FileName(result.file.clone())
        } else if !self.options.files_without_matches {
            OutputLine::Full
        } else {
            OutputLine::Nothing
        }
    }

    /// Where a result was found, as it is printed before the preview.
    pub open spec fn location_text(self, result: SearchResult) -> Seq<char> {
        if !self.options.no_filename {
            if self.options.line_numbers {
                result.file@ + ":"@ + decimal_text(result.line_start as nat) + ": "@
            } else {
                result.file@ + ": "@
            }
        } else if self.options.line_numbers {
            decimal_text(result.line_start as nat) + ": "@
        } else {
            Seq::<char>::empty()
        }
    }

    /// Where a result was found, as it is printed before the preview.
    pub fn location(&self, result: &SearchResult) -> (text: String)
        ensures
            text@ == self.location_text(*result),
    {
        if !self.options.no_filename {
            let mut text = result.file.clone();
            if self.options.line_numbers {
                text.append(":");
                text.append(decimal(result.line_start as u128).as_str());
            }
            text.append(": ");
            text
        } else if self.options.line_numbers {
            let mut text = decimal(result.line_start as u128);
            text.append(": ");
            text
        } else {
            String::new()
        }
    }

    /// The colour a score is printed in.
    pub fn score_color(score: i64) -> (rgb: (u8, u8, u8))
        ensures
            rgb == score_rgb(score),
    {
        let held: i64 = if score < 0 {
            0
        } else if score > 1_000_000 {
            1_000_000
        } else {
            score
        };
        let green: i64 = held * 255 / 1_000_000;
        ((255 - green) as u8, green as u8, 0)
    }

    /// The pieces of `text` that a preview is printed in, given what the
    /// search for the command's pattern in `text` returned: cut at the matches
    /// in regex mode, where the pattern is a regular expression and the text
    /// can be cut at its matches; in one plain piece otherwise.
    pub open spec fn highlighted(
        self,
        text: Seq<char>,
        found: Option<Seq<(usize, usize)>>,
    ) -> Seq<PieceView> {
        match found {
            Some(spans) if self.mode == SearchMode::Regex => pieces_of(text, spans),
            _ => one_piece(text),
        }
    }

    /// The pieces of `text` that a preview is printed in. Joined in their
    /// order the pieces are the text: highlighting adds, drops and moves
    /// nothing.
    pub fn highlight_match(&self, text: &str) -> (pieces: Vec<Piece>)
        ensures
            piece_views(pieces@) == self.highlighted(text@, regex_spans(self.pattern@, text@)),
            joined_texts(piece_views(pieces@)) == text@,
            self.mode != SearchMode::Regex || regex_spans(self.pattern@, text@) is None
                ==> piece_views(pieces@) == one_piece(text@),
    {
        if self.mode == SearchMode::Regex {
            match find_spans(self.pattern.as_str(), text) {
                Some(spans) => {
                    return cut_at(text, &spans);
                },
                None => {},
            }
        }
        let mut pieces: Vec<Piece> = Vec::new();
        pieces.push(Piece { text: text.to_owned(), matched: false });
        proof {
            assert(piece_views(pieces@) =~= one_piece(text@));
            lemma_one_piece(text@);
        }
        pieces
    }

    /// What is said once the query is done: nothing when it runs quietly;
    /// that nothing matched, where nothing did; the counts in verbose mode.
    pub fn summary_notice(&self, summary: &SearchSummary) -> (notice: SummaryNotice)
        ensures
            notice == if self.context.quiet {
                SummaryNotice::Silent
            } else if summary.total_matches == 0 {
                SummaryNotice::NoMatches {
                    with_closest: summary.closest_below_threshold is Some,
                }
            } else if self.context.verbose {
                SummaryNotice::Found {
                    total_matches: summary.total_matches,
                    files_with_matches: summary.files_with_matches,
                    files_searched: summary.files_searched,
                }
            } else {
                SummaryNotice::Silent
            },
    {
        if self.context.quiet {
            SummaryNotice::Silent
        } else if summary.total_matches == 0 {
            SummaryNotice::NoMatches { with_closest: summary.closest_below_threshold.is_some() }
        } else if self.context.verbose {
            SummaryNotice::Found {
                total_matches: summary.total_matches,
                files_with_matches: summary.files_with_matches,
                files_searched: summary.files_searched,
            }
        } else {
            SummaryNotice::Silent
        }
    }
}

impl Command for SearchCommand {
    open spec fn name_text(&self) -> Seq<char> {
        "search"@
    }

    /// A query needs a pattern, and it lists the files with matches or those
    /// without, not both.
    open spec fn problem(&self) -> Option<Seq<char>> {
        if self.pattern@.len() == 0 {
            Some("Search pattern cannot be empty"@)
        } else if self.options.files_with_matches && self.options.files_without_matches {
            Some("Cannot use both --files-with-matches and --files-without-matches"@)
        } else {
            None
        }
    }

    fn name(&self) -> (name: &'static str) {
        "search"
    }

    fn validate(&self) -> (checked: Result<(), String>) {
        if self.pattern.as_str().is_empty() {
            Err("Search pattern cannot be empty".to_owned())
        } else if self.options.files_with_matches && self.options.files_without_matches {
            Err("Cannot use both --files-with-matches and --files-without-matches".to_owned())
        } else {
            Ok(())
        }
    }
}

} // verus!
