use crate::engine::pattern::{
    build_pattern, check_spans_in_order, find_spans, pattern_text, regex_spans, spans_in_order,
    PatternFlags,
};
use crate::engine::rank::{ResultView, SearchResult, EXACT_MATCH_SCORE};
use vstd::prelude::*;
use crate::engine::slicing::{lemma_boundary_after_ascii, slice_text, sliceable, text_between};
use vstd::utf8::{
    encode_utf8, encode_utf8_valid_utf8, is_char_boundary_iff_not_is_continuation_byte,
    is_char_boundary_start_end_of_seq,
};

verus! {

/// The byte that ends a line.
pub const LINE_FEED: u8 = 10;

/// How many of the first `off` bytes are line feeds.
pub open spec fn feeds_before(bytes: Seq<u8>, off: int) -> nat
    decreases off,
{
    if off <= 0 {
        0
    } else {
        feeds_before(bytes, off - 1) + if off <= bytes.len() && bytes[off - 1] == LINE_FEED {
            1nat
        } else {
            0nat
        }
    }
}

/// The number of the line that holds the byte at `off`, counted from 1.
pub open spec fn line_of(bytes: Seq<u8>, off: int) -> nat {
    feeds_before(bytes, off) + 1
}

/// The offset of the last byte of a match, or of its place where it is empty.
pub open spec fn last_of(span: (usize, usize)) -> int {
    if span.1 > span.0 {
        span.1 - 1
    } else {
        span.0 as int
    }
}

/// Where the line starts that lies `lines` lines before the line of `pos`;
/// the start of the text where there are not so many.
pub open spec fn context_start(bytes: Seq<u8>, pos: int, lines: nat) -> int
    decreases pos,
{
    if pos <= 0 {
        0
    } else if pos <= bytes.len() && bytes[pos - 1] == LINE_FEED {
        if lines == 0 {
            pos
        } else {
            context_start(bytes, pos - 1, (lines - 1) as nat)
        }
    } else {
        context_start(bytes, pos - 1, lines)
    }
}

/// Where the line ends that lies `lines` lines after the line of `pos`; the
/// end of the text where there are not so many. A line ends before its line
/// feed.
pub open spec fn context_end(bytes: Seq<u8>, pos: int, lines: nat) -> int
    decreases bytes.len() - pos,
{
    if pos >= bytes.len() {
        bytes.len() as int
    } else if pos >= 0 && bytes[pos] == LINE_FEED {
        if lines == 0 {
            pos
        } else {
            context_end(bytes, pos + 1, (lines - 1) as nat)
        }
    } else {
        context_end(bytes, pos + 1, lines)
    }
}

/// The result that a match at `span` in `content` gives: the lines of the
/// match, the full score, and as preview the lines of the match with
/// `before` lines before them and `after` lines after them.
pub open spec fn hit(
    file: Seq<char>,
    content: Seq<char>,
    span: (usize, usize),
    before: nat,
    after: nat,
) -> ResultView {
    let bytes = encode_utf8(content);
    ResultView {
        file,
        line_start: line_of(bytes, span.0 as int) as usize,
        line_end: line_of(bytes, last_of(span)) as usize,
        preview: text_between(
            content,
            context_start(bytes, span.0 as int, before),
            context_end(bytes, last_of(span), after),
        ),
        score: EXACT_MATCH_SCORE,
    }
}

/// The results that the matches at `spans` give, one each, in their order.
pub open spec fn hits(
    file: Seq<char>,
    content: Seq<char>,
    spans: Seq<(usize, usize)>,
    before: nat,
    after: nat,
) -> Seq<ResultView> {
    Seq::new(spans.len(), |i: int| hit(file, content, spans[i], before, after))
}

proof fn lemma_feeds_bound(bytes: Seq<u8>, off: int)
    requires
        off >= 0,
    ensures
        feeds_before(bytes, off) <= off,
    decreases off,
{
    if off > 0 {
        lemma_feeds_bound(bytes, off - 1);
    }
}

fn count_feeds(bytes: &[u8], from: usize, from_count: usize, to: usize) -> (count: usize)
    requires
        from <= to <= bytes@.len(),
        from_count == feeds_before(bytes@, from as int),
    ensures
        count == feeds_before(bytes@, to as int),
        count <= to,
{
    let mut pos = from;
    let mut count = from_count;
    proof {
        lemma_feeds_bound(bytes@, from as int);
    }
    while pos < to
        invariant
            from <= pos <= to <= bytes@.len(),
            count == feeds_before(bytes@, pos as int),
            count <= pos,
        decreases to - pos,
    {
        if bytes[pos] == LINE_FEED {
            count = count + 1;
        }
        pos = pos + 1;
    }
    count
}

fn find_context_start(bytes: &[u8], pos: usize, lines: usize) -> (start: usize)
    requires
        pos <= bytes@.len(),
    ensures
        start == context_start(bytes@, pos as int, lines as nat),
        start <= pos,
{
    let mut p = pos;
    let mut n = lines;
    while p > 0
        invariant
            p <= pos <= bytes@.len(),
            context_start(bytes@, pos as int, lines as nat) == context_start(
                bytes@,
                p as int,
                n as nat,
            ),
        decreases p,
    {
        if bytes[p - 1] == LINE_FEED {
            if n == 0 {
                return p;
            }
            n = n - 1;
        }
        p = p - 1;
    }
    p
}

fn find_context_end(bytes: &[u8], pos: usize, lines: usize) -> (end: usize)
    requires
        pos <= bytes@.len(),
    ensures
        end == context_end(bytes@, pos as int, lines as nat),
        pos <= end <= bytes@.len(),
{
    let mut p = pos;
    let mut n = lines;
    while p < bytes.len()
        invariant
            pos <= p <= bytes@.len(),
            context_end(bytes@, pos as int, lines as nat) == context_end(
                bytes@,
                p as int,
                n as nat,
            ),
        decreases bytes@.len() - p,
    {
        if bytes[p] == LINE_FEED {
            if n == 0 {
                return p;
            }
            n = n - 1;
        }
        p = p + 1;
    }
    p
}

/// Turns the matches at `spans` into results, one each, in their order.
pub fn locate(
    file: &str,
    content: &str,
    spans: &Vec<(usize, usize)>,
    before: usize,
    after: usize,
) -> (results: Vec<SearchResult>)
    requires
        spans_in_order(spans@, encode_utf8(content@).len() as int),
        encode_utf8(content@).len() < usize::MAX,
    ensures
        crate::engine::rank::result_views(results@) == hits(
            file@,
            content@,
            spans@,
            before as nat,
            after as nat,
        ),
{
    let bytes = content.as_bytes();
    let mut results: Vec<SearchResult> = Vec::new();
    let mut pos: usize = 0;
    let mut count: usize = 0;
    let mut i: usize = 0;
    while i < spans.len()
        invariant
            i <= spans@.len(),
            bytes@ == encode_utf8(content@),
            bytes@.len() < usize::MAX,
            spans_in_order(spans@, bytes@.len() as int),
            pos <= bytes@.len(),
            i < spans@.len() ==> pos <= spans@[i as int].0,
            count == feeds_before(bytes@, pos as int),
            results@.len() == i,
            forall|k: int|
                0 <= k < i ==> (#[trigger] results@[k])@ == hit(
                    file@,
                    content@,
                    spans@[k],
                    before as nat,
                    after as nat,
                ),
        decreases spans@.len() - i,
    {
        let span = spans[i];
        let last: usize = if span.1 > span.0 {
            span.1 - 1
        } else {
            span.0
        };
        let start_count = count_feeds(bytes, pos, count, span.0);
        let last_count = count_feeds(bytes, span.0, start_count, last);
        let from = find_context_start(bytes, span.0, before);
        let to = find_context_end(bytes, last, after);
        results.push(
            SearchResult {
                file: file.to_owned(),
                line_start: start_count + 1,
                line_end: last_count + 1,
                preview: slice_text(content, from, to),
                score: EXACT_MATCH_SCORE,
            },
        );
        proof {
            if i + 1 < spans@.len() {
                assert(spans@[i as int].1 <= spans@[i + 1].0);
            }
        }
        pos = last;
        count = last_count;
        i = i + 1;
    }
    proof {
        assert(crate::engine::rank::result_views(results@) =~= hits(
            file@,
            content@,
            spans@,
            before as nat,
            after as nat,
        ));
    }
    results
}

proof fn lemma_context_start(bytes: Seq<u8>, pos: int, lines: nat)
    requires
        0 <= pos <= bytes.len(),
    ensures
        0 <= context_start(bytes, pos, lines) <= pos,
        context_start(bytes, pos, lines) > 0 ==> bytes[context_start(bytes, pos, lines) - 1]
            == LINE_FEED,
    decreases pos,
{
    if pos > 0 {
        if bytes[pos - 1] == LINE_FEED {
            if lines > 0 {
                lemma_context_start(bytes, pos - 1, (lines - 1) as nat);
            }
        } else {
            lemma_context_start(bytes, pos - 1, lines);
        }
    }
}

proof fn lemma_context_end(bytes: Seq<u8>, pos: int, lines: nat)
    requires
        0 <= pos <= bytes.len(),
    ensures
        pos <= context_end(bytes, pos, lines) <= bytes.len(),
        context_end(bytes, pos, lines) < bytes.len() ==> bytes[context_end(bytes, pos, lines)]
            == LINE_FEED,
    decreases bytes.len() - pos,
{
    if pos < bytes.len() {
        if bytes[pos] == LINE_FEED {
            if lines > 0 {
                lemma_context_end(bytes, pos + 1, (lines - 1) as nat);
            }
        } else {
            lemma_context_end(bytes, pos + 1, lines);
        }
    }
}

/// The preview of a match holds whole lines and loses no text: it is cut
/// where a line starts and where a line ends, and there the text can always
/// be cut.
pub proof fn lemma_preview_is_whole_lines(
    content: Seq<char>,
    span: (usize, usize),
    before: nat,
    after: nat,
)
    requires
        span.0 <= span.1 <= encode_utf8(content).len(),
    ensures
        sliceable(
            encode_utf8(content),
            context_start(encode_utf8(content), span.0 as int, before),
            context_end(encode_utf8(content), last_of(span), after),
        ),
        context_start(encode_utf8(content), span.0 as int, before) <= span.0,
        last_of(span) <= context_end(encode_utf8(content), last_of(span), after),
{
    let bytes = encode_utf8(content);
    let from = context_start(bytes, span.0 as int, before);
    let to = context_end(bytes, last_of(span), after);
    encode_utf8_valid_utf8(content);
    lemma_context_start(bytes, span.0 as int, before);
    lemma_context_end(bytes, last_of(span), after);
    is_char_boundary_start_end_of_seq(bytes);
    if from > 0 {
        lemma_boundary_after_ascii(bytes, from);
    }
    if to < bytes.len() {
        is_char_boundary_iff_not_is_continuation_byte(bytes, to);
    }
}

/// How a search for a regular expression in one file ended.
#[derive(Debug)]
pub enum RegexOutcome {
    /// The matches, one result each, in the order of the text.
    Matches(Vec<SearchResult>),
    /// The query is no regular expression.
    InvalidPattern,
    /// The matches do not lie in the text one after the other.
    Unlocatable,
}

/// Searches the content of one file for a query. Every match becomes one
/// result with the full score; `before` and `after` widen the previews, not
/// the number of results.
pub fn regex_search(
    query: &str,
    flags: PatternFlags,
    file: &str,
    content: &str,
    before: usize,
    after: usize,
) -> (outcome: RegexOutcome)
    ensures
        match regex_spans(pattern_text(query@, flags), content@) {
            None => outcome is InvalidPattern,
            Some(spans) => if spans_in_order(spans, encode_utf8(content@).len() as int)
                && encode_utf8(content@).len() < usize::MAX {
                outcome matches RegexOutcome::Matches(results)
                    && crate::engine::rank::result_views(results@) == hits(
                    file@,
                    content@,
                    spans,
                    before as nat,
                    after as nat,
                )
            } else {
                outcome is Unlocatable
            },
        },
{
    let pattern = build_pattern(query, flags);
    match find_spans(pattern.as_str(), content) {
        None => RegexOutcome::InvalidPattern,
        Some(spans) => {
            let len = content.as_bytes().len();
            if len < usize::MAX && check_spans_in_order(&spans, len) {
                RegexOutcome::Matches(locate(file, content, &spans, before, after))
            } else {
                RegexOutcome::Unlocatable
            }
        },
    }
}

} // verus!
