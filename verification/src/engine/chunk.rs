use vstd::prelude::*;

verus! {

/// The lines a chunk covers, counted from 1, both ends included.
#[derive(Clone, Copy, Debug, PartialEq, Eq, Structural)]
pub struct Span {
    pub line_start: usize,
    pub line_end: usize,
}

/// The spans are those of chunks cut from one file: each covers at least one
/// line, and each starts after the one before it ends.
pub open spec fn spans_ordered(spans: Seq<Span>) -> bool {
    &&& forall|i: int| 0 <= i < spans.len() ==> 1 <= (#[trigger] spans[i]).line_start <= spans[i].line_end
    &&& forall|i: int, j: int|
        0 <= i < j < spans.len() ==> (#[trigger] spans[i]).line_end < (#[trigger] spans[j]).line_start
}

/// Whether line `line` lies in one of the spans.
pub open spec fn covered(spans: Seq<Span>, line: int) -> bool {
    exists|i: int| 0 <= i < spans.len() && (#[trigger] spans[i]).line_start <= line <= spans[i].line_end
}

/// The spans reach no line past `line_count` and leave out no line that is
/// marked as holding text. `has_text[k]` says so of line `k + 1`.
pub open spec fn spans_cover(spans: Seq<Span>, has_text: Seq<bool>) -> bool {
    &&& forall|i: int| 0 <= i < spans.len() ==> (#[trigger] spans[i]).line_end <= has_text.len()
    &&& forall|k: int| 0 <= k < has_text.len() && #[trigger] has_text[k] ==> covered(spans, k + 1)
}

/// Whether the spans are ordered and do not overlap.
pub fn check_spans_ordered(spans: &Vec<Span>) -> (ok: bool)
    ensures
        ok == spans_ordered(spans@),
{
    let mut i: usize = 0;
    while i < spans.len()
        invariant
            i <= spans.len(),
            forall|a: int| 0 <= a < i ==> 1 <= (#[trigger] spans@[a]).line_start <= spans@[a].line_end,
            forall|a: int|
                0 <= a < i - 1 ==> (#[trigger] spans@[a]).line_end < spans@[a + 1].line_start,
        decreases spans.len() - i,
    {
        let s = spans[i];
        if s.line_start < 1 || s.line_start > s.line_end {
            return false;
        }
        if i > 0 && spans[i - 1].line_end >= s.line_start {
            assert(!(spans@[i - 1].line_end < spans@[i as int].line_start));
            return false;
        }
        i = i + 1;
    }
    proof {
        lemma_adjacent_order(spans@);
    }
    true
}

/// Spans that each start after their neighbour ends are ordered throughout.
pub proof fn lemma_adjacent_order(spans: Seq<Span>)
    requires
        forall|a: int| 0 <= a < spans.len() ==> 1 <= (#[trigger] spans[a]).line_start <= spans[a].line_end,
        forall|a: int| 0 <= a < spans.len() - 1 ==> (#[trigger] spans[a]).line_end < spans[a + 1].line_start,
    ensures
        spans_ordered(spans),
{
    assert forall|i: int, j: int| 0 <= i < j < spans.len() implies (#[trigger] spans[i]).line_end < (
    #[trigger] spans[j]).line_start by {
        lemma_order_between(spans, i, j);
    }
}

proof fn lemma_order_between(spans: Seq<Span>, i: int, j: int)
    requires
        forall|a: int| 0 <= a < spans.len() ==> 1 <= (#[trigger] spans[a]).line_start <= spans[a].line_end,
        forall|a: int| 0 <= a < spans.len() - 1 ==> (#[trigger] spans[a]).line_end < spans[a + 1].line_start,
        0 <= i < j < spans.len(),
    ensures
        spans[i].line_end < spans[j].line_start,
    decreases j - i,
{
    if j > i + 1 {
        lemma_order_between(spans, i, j - 1);
        assert(spans[j - 1].line_end < spans[j - 1 + 1].line_start);
    } else {
        assert(spans[i].line_end < spans[i + 1].line_start);
    }
}

/// Whether the spans stay within the file and cover every line that holds
/// text. The spans must be ordered.
pub fn check_spans_cover(spans: &Vec<Span>, has_text: &Vec<bool>) -> (ok: bool)
    requires
        spans_ordered(spans@),
    ensures
        ok == spans_cover(spans@, has_text@),
{
    let n = has_text.len();
    let mut line: usize = 0;
    let mut i: usize = 0;
    // Every line up to `line` is settled, and every span before `i` ends
    // at or before `line`.
    while i < spans.len()
        invariant
            i <= spans.len(),
            line <= n,
            n == has_text@.len(),
            spans_ordered(spans@),
            forall|a: int| 0 <= a < i ==> (#[trigger] spans@[a]).line_end <= line,
            forall|k: int| 0 <= k < line && #[trigger] has_text@[k] ==> covered(spans@, k + 1),
        decreases spans.len() - i,
    {
        let s = spans[i];
        if s.line_end > n {
            return false;
        }
        while line < s.line_start - 1
            invariant
                line <= n,
                n == has_text@.len(),
                i < spans.len(),
                s == spans@[i as int],
                s.line_end <= n,
                spans_ordered(spans@),
                forall|a: int| 0 <= a < i ==> (#[trigger] spans@[a]).line_end <= line,
                forall|k: int| 0 <= k < line && #[trigger] has_text@[k] ==> covered(spans@, k + 1),
            decreases n - line,
        {
            if has_text[line] {
                proof {
                    lemma_gap_uncovered(spans@, i as int, line as int + 1);
                }
                return false;
            }
            line = line + 1;
        }
        proof {
            assert forall|k: int| 0 <= k < s.line_end && #[trigger] has_text@[k] implies covered(
                spans@,
                k + 1,
            ) by {
                if k >= line {
                    assert(spans@[i as int].line_start <= k + 1 <= spans@[i as int].line_end);
                }
            }
        }
        if line < s.line_end {
            line = s.line_end;
        }
        i = i + 1;
    }
    while line < n
        invariant
            line <= n,
            n == has_text@.len(),
            i == spans.len(),
            forall|a: int| 0 <= a < spans.len() ==> (#[trigger] spans@[a]).line_end <= line,
            forall|k: int| 0 <= k < line && #[trigger] has_text@[k] ==> covered(spans@, k + 1),
        decreases n - line,
    {
        if has_text[line] {
            assert(!covered(spans@, line as int + 1));
            return false;
        }
        line = line + 1;
    }
    true
}

/// A line between the spans before `i`, which all end before it, and span `i`,
/// which starts after it, lies in no span.
proof fn lemma_gap_uncovered(spans: Seq<Span>, i: int, line: int)
    requires
        spans_ordered(spans),
        0 <= i < spans.len(),
        forall|a: int| 0 <= a < i ==> (#[trigger] spans[a]).line_end < line,
        line < spans[i].line_start,
    ensures
        !covered(spans, line),
{
    assert forall|a: int| 0 <= a < spans.len() implies !((#[trigger] spans[a]).line_start <= line
        <= spans[a].line_end) by {
        if a > i {
            assert(spans[i].line_end < spans[a].line_start);
        }
    }
}

/// The token estimates of lines `from + 1` to `to`, added up.
pub open spec fn range_tokens(line_tokens: Seq<usize>, from: int, to: int) -> nat
    decreases to - from,
{
    if to <= from || to > line_tokens.len() || from < 0 {
        0
    } else {
        range_tokens(line_tokens, from, to - 1) + line_tokens[to - 1] as nat
    }
}

/// The spans cut lines `from + 1` to `to` into windows: the first starts at
/// line `from + 1`, each other one starts where the one before it ended, and
/// the last ends at line `to`.
pub open spec fn tiles_range(spans: Seq<Span>, from: int, to: int) -> bool {
    &&& from == to <==> spans.len() == 0
    &&& spans.len() > 0 ==> spans[0].line_start == from + 1 && spans.last().line_end == to
    &&& forall|k: int| 0 <= k < spans.len() ==> 1 <= (#[trigger] spans[k]).line_start <= spans[k].line_end
    &&& forall|k: int| 0 <= k < spans.len() - 1 ==> (#[trigger] spans[k]).line_end + 1 == spans[k + 1].line_start
}

/// The spans cut lines 1 to `n` into windows.
pub open spec fn tiles(spans: Seq<Span>, n: int) -> bool {
    tiles_range(spans, 0, n)
}

/// Each window keeps to the budget unless it is a single line, and no window
/// could take the first line of the next one and keep to it.
pub open spec fn windows_fill(spans: Seq<Span>, line_tokens: Seq<usize>, max_tokens: usize) -> bool {
    &&& forall|k: int|
        0 <= k < spans.len() ==> (#[trigger] spans[k]).line_start == spans[k].line_end
            || range_tokens(line_tokens, spans[k].line_start - 1, spans[k].line_end as int)
            <= max_tokens
    &&& forall|k: int|
        0 <= k < spans.len() - 1 ==> range_tokens(
            line_tokens,
            (#[trigger] spans[k]).line_start - 1,
            spans[k].line_end + 1,
        ) > max_tokens
}

/// Each window keeps to the budget unless it is a single line.
pub open spec fn windows_fill_within(spans: Seq<Span>, line_tokens: Seq<usize>, max_tokens: usize) -> bool {
    forall|k: int|
        0 <= k < spans.len() ==> (#[trigger] spans[k]).line_start == spans[k].line_end
            || range_tokens(line_tokens, spans[k].line_start - 1, spans[k].line_end as int)
            <= max_tokens
}

/// Windows that cut lines 1 to `n` are ordered, do not overlap, and cover
/// every line, whatever the lines hold.
pub proof fn lemma_tiles_cover(spans: Seq<Span>, has_text: Seq<bool>)
    requires
        tiles(spans, has_text.len() as int),
    ensures
        spans_ordered(spans),
        spans_cover(spans, has_text),
{
    lemma_adjacent_order(spans);
    assert forall|i: int| 0 <= i < spans.len() implies (#[trigger] spans[i]).line_end
        <= has_text.len() by {
        if i < spans.len() - 1 {
            assert(spans[i].line_end < spans[spans.len() - 1].line_start);
        }
    }
    assert forall|k: int| 0 <= k < has_text.len() && #[trigger] has_text[k] implies covered(
        spans,
        k + 1,
    ) by {
        lemma_covered_upto(spans, spans.len() - 1, k + 1);
    }
}

proof fn lemma_covered_upto(spans: Seq<Span>, k: int, line: int)
    requires
        0 <= k < spans.len(),
        spans[0].line_start == 1,
        forall|a: int| 0 <= a < spans.len() - 1 ==> (#[trigger] spans[a]).line_end + 1 == spans[a + 1].line_start,
        1 <= line <= spans[k].line_end,
    ensures
        covered(spans, line),
    decreases k,
{
    if line >= spans[k].line_start {
        assert(spans[k].line_start <= line <= spans[k].line_end);
    } else {
        assert(k > 0);
        assert(spans[k - 1].line_end + 1 == spans[k - 1 + 1].line_start);
        lemma_covered_upto(spans, k - 1, line);
    }
}

/// Cuts lines `from + 1` to `to` into windows by their token estimates: each
/// window takes as many lines as the budget allows, and at least one.
pub fn window_range(line_tokens: &Vec<usize>, from: usize, to: usize, max_tokens: usize) -> (spans:
    Vec<Span>)
    requires
        from <= to <= line_tokens@.len(),
    ensures
        tiles_range(spans@, from as int, to as int),
        windows_fill(spans@, line_tokens@, max_tokens),
{
    let mut spans: Vec<Span> = Vec::new();
    let mut start: usize = from;
    let mut sum: usize = 0;
    let mut i: usize = from;
    while i < to
        invariant
            from <= start <= i <= to <= line_tokens@.len(),
            i > from ==> start < i,
            sum == range_tokens(line_tokens@, start as int, i as int),
            i > start + 1 ==> sum <= max_tokens,
            tiles_range(spans@, from as int, start as int),
            forall|k: int|
                0 <= k < spans@.len() ==> (#[trigger] spans@[k]).line_start == spans@[k].line_end
                    || range_tokens(line_tokens@, spans@[k].line_start - 1, spans@[k].line_end as int)
                    <= max_tokens,
            forall|k: int|
                0 <= k < spans@.len() ==> range_tokens(
                    line_tokens@,
                    (#[trigger] spans@[k]).line_start - 1,
                    spans@[k].line_end + 1,
                ) > max_tokens,
        decreases to - i,
    {
        let t = line_tokens[i];
        if i > start && (sum > max_tokens || t > max_tokens - sum) {
            let ghost before = spans@;
            spans.push(Span { line_start: start + 1, line_end: i });
            proof {
                assert(range_tokens(line_tokens@, start as int, i + 1) == sum + t);
                assert forall|k: int| 0 <= k < spans@.len() - 1 implies (#[trigger] spans@[k]).line_end
                    + 1 == spans@[k + 1].line_start by {
                    if k < before.len() - 1 {
                        assert(before[k].line_end + 1 == before[k + 1].line_start);
                    }
                }
            }
            start = i;
            sum = 0;
        }
        assert(range_tokens(line_tokens@, start as int, i + 1) == range_tokens(
            line_tokens@,
            start as int,
            i as int,
        ) + t);
        assert(range_tokens(line_tokens@, i as int, i as int) == 0);
        if i == start {
            sum = t;
        } else {
            sum = sum + t;
        }
        i = i + 1;
    }
    if to > from {
        let ghost before = spans@;
        spans.push(Span { line_start: start + 1, line_end: to });
        proof {
            assert forall|k: int| 0 <= k < spans@.len() - 1 implies (#[trigger] spans@[k]).line_end
                + 1 == spans@[k + 1].line_start by {
                if k < before.len() - 1 {
                    assert(before[k].line_end + 1 == before[k + 1].line_start);
                }
            }
        }
    }
    spans
}

/// Cuts a text into windows of whole lines by its token estimates, one per
/// line. This is how a text is chunked where nothing is known of its
/// structure.
pub fn window_spans(line_tokens: &Vec<usize>, max_tokens: usize) -> (spans: Vec<Span>)
    ensures
        tiles(spans@, line_tokens@.len() as int),
        windows_fill(spans@, line_tokens@, max_tokens),
{
    window_range(line_tokens, 0, line_tokens.len(), max_tokens)
}

/// A stretch of a file that belongs together: the lines of one symbol, or the
/// text between two symbols.
#[derive(Clone, Copy, Debug, PartialEq, Eq, Structural)]
pub struct Region {
    pub span: Span,
    /// Which symbol the lines belong to, as its number in the file's list of
    /// symbols; `None` for text outside every symbol.
    pub symbol: Option<usize>,
}

/// The lines of the regions.
pub open spec fn region_spans(regions: Seq<Region>) -> Seq<Span> {
    Seq::new(regions.len(), |i: int| regions[i].span)
}

/// Each chunk lies within one region and carries the symbol of that region.
pub open spec fn chunks_keep_symbols(chunks: Seq<Region>, regions: Seq<Region>) -> bool {
    forall|k: int|
        0 <= k < chunks.len() ==> exists|r: int|
            0 <= r < regions.len() && (#[trigger] regions[r]).span.line_start <= (
            #[trigger] chunks[k]).span.line_start && chunks[k].span.line_end
                <= regions[r].span.line_end && chunks[k].symbol == regions[r].symbol
}

/// No chunk that ends before its region does could take one more line and
/// keep to the budget.
pub open spec fn chunks_are_full(
    chunks: Seq<Region>,
    regions: Seq<Region>,
    line_tokens: Seq<usize>,
    max_tokens: usize,
) -> bool {
    forall|k: int, r: int|
        0 <= k < chunks.len() && 0 <= r < regions.len() && (#[trigger] regions[r]).span.line_start
            <= (#[trigger] chunks[k]).span.line_start && chunks[k].span.line_end
            < regions[r].span.line_end ==> range_tokens(
            line_tokens,
            chunks[k].span.line_start - 1,
            chunks[k].span.line_end + 1,
        ) > max_tokens
}

/// Windows that follow one another cut the lines of both.
proof fn lemma_tiles_join(first: Seq<Span>, second: Seq<Span>, from: int, mid: int, to: int)
    requires
        tiles_range(first, from, mid),
        tiles_range(second, mid, to),
        from <= mid <= to,
    ensures
        tiles_range(first + second, from, to),
{
    let all = first + second;
    if second.len() == 0 {
        assert(all =~= first);
    } else if first.len() == 0 {
        assert(all =~= second);
    } else {
        assert(all[0] == first[0]);
        assert(all.last() == second.last());
        assert forall|k: int| 0 <= k < all.len() - 1 implies (#[trigger] all[k]).line_end + 1
            == all[k + 1].line_start by {
            if k < first.len() - 1 {
                assert(first[k].line_end + 1 == first[k + 1].line_start);
            } else if k == first.len() - 1 {
                assert(all[k] == first.last());
                assert(all[k + 1] == second[0]);
            } else {
                assert(all[k] == second[k - first.len()]);
                assert(all[k + 1] == second[k - first.len() + 1]);
                assert(second[k - first.len()].line_end + 1 == second[k - first.len() + 1].line_start);
            }
        }
        assert forall|k: int| 0 <= k < all.len() implies 1 <= (#[trigger] all[k]).line_start
            <= all[k].line_end by {
            if k < first.len() {
                assert(all[k] == first[k]);
            } else {
                assert(all[k] == second[k - first.len()]);
            }
        }
        assert(first[0].line_start <= first[0].line_end);
    }
}

/// Whether the regions cut lines 1 to `n`.
pub fn regions_tile(regions: &Vec<Region>, n: usize) -> (ok: bool)
    ensures
        ok == tiles(region_spans(regions@), n as int),
{
    let ghost lines = region_spans(regions@);
    if regions.len() == 0 {
        return n == 0;
    }
    if n == 0 || regions[0].span.line_start != 1 {
        proof {
            assert(lines[0] == regions@[0].span);
        }
        return false;
    }
    let mut i: usize = 0;
    while i < regions.len()
        invariant
            i <= regions@.len(),
            lines == region_spans(regions@),
            forall|k: int| 0 <= k < i ==> 1 <= (#[trigger] lines[k]).line_start <= lines[k].line_end,
            forall|k: int| 0 <= k < i - 1 ==> (#[trigger] lines[k]).line_end + 1 == lines[k + 1].line_start,
        decreases regions@.len() - i,
    {
        let span = regions[i].span;
        proof {
            assert(lines[i as int] == span);
        }
        if span.line_start < 1 || span.line_start > span.line_end {
            return false;
        }
        if i > 0 {
            let prev = regions[i - 1].span;
            proof {
                assert(lines[i - 1] == prev);
            }
            if prev.line_end == usize::MAX || prev.line_end + 1 != span.line_start {
                proof {
                    assert(!(lines[i - 1].line_end + 1 == lines[i - 1 + 1].line_start));
                }
                return false;
            }
        }
        i = i + 1;
    }
    proof {
        assert(lines[0] == regions@[0].span);
        assert(lines.last() == regions@[regions@.len() - 1].span);
    }
    regions[regions.len() - 1].span.line_end == n
}

/// The windows as chunks that carry `symbol`.
pub open spec fn tagged(windows: Seq<Span>, symbol: Option<usize>) -> Seq<Region> {
    Seq::new(windows.len(), |j: int| Region { span: windows[j], symbol })
}

fn append_tagged(chunks: &mut Vec<Region>, windows: &Vec<Span>, symbol: Option<usize>)
    ensures
        final(chunks)@ == old(chunks)@ + tagged(windows@, symbol),
{
    let mut k: usize = 0;
    proof {
        assert(chunks@ =~= old(chunks)@ + tagged(windows@, symbol).take(0));
    }
    while k < windows.len()
        invariant
            k <= windows@.len(),
            chunks@ == old(chunks)@ + tagged(windows@, symbol).take(k as int),
        decreases windows@.len() - k,
    {
        chunks.push(Region { span: windows[k], symbol });
        proof {
            assert(tagged(windows@, symbol).take(k + 1) =~= tagged(windows@, symbol).take(
                k as int,
            ).push(Region { span: windows@[k as int], symbol }));
            assert(chunks@ =~= old(chunks)@ + tagged(windows@, symbol).take(k + 1));
        }
        k = k + 1;
    }
    proof {
        assert(tagged(windows@, symbol).take(k as int) =~= tagged(windows@, symbol));
    }
}

/// The chunks of the regions so far, with the windows of the next region
/// behind them, are the chunks of the regions up to that one.
proof fn lemma_chunks_extend(
    before: Seq<Region>,
    windows: Seq<Span>,
    regions: Seq<Region>,
    i: int,
    line_tokens: Seq<usize>,
    max_tokens: usize,
)
    requires
        0 <= i < regions.len(),
        tiles_range(region_spans(before), 0, regions[i].span.line_start - 1),
        chunks_keep_symbols(before, regions),
        windows_fill_within(region_spans(before), line_tokens, max_tokens),
        tiles_range(windows, regions[i].span.line_start - 1, regions[i].span.line_end as int),
        windows_fill(windows, line_tokens, max_tokens),
        1 <= regions[i].span.line_start <= regions[i].span.line_end,
        chunks_are_full(before, regions, line_tokens, max_tokens),
        forall|r: int| 0 <= r < regions.len() && r != i ==> (#[trigger] regions[r]).span.line_end
            < regions[i].span.line_start || regions[i].span.line_end < regions[r].span.line_start,
    ensures
        chunks_are_full(
            before + tagged(windows, regions[i].symbol),
            regions,
            line_tokens,
            max_tokens,
        ),
        tiles_range(
            region_spans(before + tagged(windows, regions[i].symbol)),
            0,
            regions[i].span.line_end as int,
        ),
        chunks_keep_symbols(before + tagged(windows, regions[i].symbol), regions),
        windows_fill_within(
            region_spans(before + tagged(windows, regions[i].symbol)),
            line_tokens,
            max_tokens,
        ),
{
    let region = regions[i];
    let after = before + tagged(windows, region.symbol);
    let old_spans = region_spans(before);
    let new_spans = region_spans(after);
    assert(new_spans =~= old_spans + windows);
    lemma_tiles_join(old_spans, windows, 0, region.span.line_start - 1, region.span.line_end as int);
    lemma_window_bounds(windows, region.span.line_start - 1, region.span.line_end as int);
    assert forall|c: int| 0 <= c < after.len() implies exists|r: int|
        0 <= r < regions.len() && (#[trigger] regions[r]).span.line_start <= (#[trigger] after[c]).span.line_start
            && after[c].span.line_end <= regions[r].span.line_end && after[c].symbol
            == regions[r].symbol by {
        if c < before.len() {
            assert(after[c] == before[c]);
            let r = choose|r: int|
                0 <= r < regions.len() && (#[trigger] regions[r]).span.line_start
                    <= before[c].span.line_start && before[c].span.line_end
                    <= regions[r].span.line_end && before[c].symbol == regions[r].symbol;
            assert(regions[r].span.line_start <= after[c].span.line_start);
        } else {
            let j = c - before.len();
            assert(after[c] == Region { span: windows[j], symbol: region.symbol });
            assert(regions[i].span.line_start <= after[c].span.line_start);
        }
    }
    assert forall|c: int| 0 <= c < new_spans.len() implies (#[trigger] new_spans[c]).line_start
        == new_spans[c].line_end || range_tokens(
        line_tokens,
        new_spans[c].line_start - 1,
        new_spans[c].line_end as int,
    ) <= max_tokens by {
        if c < before.len() {
            assert(new_spans[c] == old_spans[c]);
        } else {
            assert(new_spans[c] == windows[c - before.len()]);
        }
    }
    assert forall|k: int, r: int|
        0 <= k < after.len() && 0 <= r < regions.len() && (#[trigger] regions[r]).span.line_start
            <= (#[trigger] after[k]).span.line_start && after[k].span.line_end
            < regions[r].span.line_end implies range_tokens(
        line_tokens,
        after[k].span.line_start - 1,
        after[k].span.line_end + 1,
    ) > max_tokens by {
        if k < before.len() {
            assert(after[k] == before[k]);
        } else {
            let j = k - before.len();
            assert(after[k] == Region { span: windows[j], symbol: region.symbol });
            assert(r == i);
            if j == windows.len() - 1 {
                assert(windows[j] == windows.last());
            }
        }
    }
}

/// Cuts a file into chunks along its regions. A region that keeps to the
/// budget becomes one chunk; a larger one is cut into windows of whole
/// lines, each of which carries the region's symbol. The regions must cut
/// the lines of the file.
pub fn chunk_regions(regions: &Vec<Region>, line_tokens: &Vec<usize>, max_tokens: usize) -> (chunks:
    Vec<Region>)
    requires
        tiles(region_spans(regions@), line_tokens@.len() as int),
    ensures
        tiles(region_spans(chunks@), line_tokens@.len() as int),
        chunks_keep_symbols(chunks@, regions@),
        windows_fill_within(region_spans(chunks@), line_tokens@, max_tokens),
        chunks_are_full(chunks@, regions@, line_tokens@, max_tokens),
{
    let ghost lines = region_spans(regions@);
    let n = line_tokens.len();
    let mut chunks: Vec<Region> = Vec::new();
    let mut i: usize = 0;
    proof {
        assert(region_spans(chunks@) =~= Seq::<Span>::empty());
    }
    while i < regions.len()
        invariant
            i <= regions@.len(),
            n == line_tokens@.len(),
            lines == region_spans(regions@),
            tiles(lines, n as int),
            tiles_range(
                region_spans(chunks@),
                0,
                if i == 0 {
                    0int
                } else {
                    lines[i - 1].line_end as int
                },
            ),
            chunks_keep_symbols(chunks@, regions@),
            windows_fill_within(region_spans(chunks@), line_tokens@, max_tokens),
            chunks_are_full(chunks@, regions@, line_tokens@, max_tokens),
        decreases regions@.len() - i,
    {
        let region = regions[i];
        proof {
            assert(lines[i as int] == region.span);
            lemma_region_bounds(lines, n as int, i as int);
        }
        let windows = window_range(
            line_tokens,
            region.span.line_start - 1,
            region.span.line_end,
            max_tokens,
        );
        let ghost before = chunks@;
        append_tagged(&mut chunks, &windows, region.symbol);
        proof {
            lemma_tiles_cover(lines, Seq::new(n as nat, |k: int| true));
            assert forall|r: int| 0 <= r < regions@.len() && r != i implies (#[trigger] regions@[r]).span.line_end
                < regions@[i as int].span.line_start || regions@[i as int].span.line_end
                < regions@[r].span.line_start by {
                assert(lines[r] == regions@[r].span);
                if r < i {
                    assert(lines[r].line_end < lines[i as int].line_start);
                } else {
                    assert(lines[i as int].line_end < lines[r].line_start);
                }
            }
            lemma_chunks_extend(before, windows@, regions@, i as int, line_tokens@, max_tokens);
        }
        i = i + 1;
    }
    proof {
        if regions@.len() > 0 {
            assert(lines.last() == lines[regions@.len() - 1]);
        }
    }
    chunks
}

/// Where region `i` of a cut lies: after the region before it, within the
/// lines of the file.
proof fn lemma_region_bounds(lines: Seq<Span>, n: int, i: int)
    requires
        tiles(lines, n),
        0 <= i < lines.len(),
    ensures
        1 <= lines[i].line_start <= lines[i].line_end <= n,
        i == 0 ==> lines[i].line_start == 1,
        i > 0 ==> lines[i].line_start == lines[i - 1].line_end + 1,
    decreases lines.len() - i,
{
    if i < lines.len() - 1 {
        lemma_region_bounds(lines, n, i + 1);
        assert(lines[i].line_end + 1 == lines[i + 1].line_start);
    }
    if i > 0 {
        assert(lines[i - 1].line_end + 1 == lines[i - 1 + 1].line_start);
    }
}

/// Windows that cut a range of lines lie within it.
proof fn lemma_window_bounds(spans: Seq<Span>, from: int, to: int)
    requires
        tiles_range(spans, from, to),
    ensures
        forall|k: int| 0 <= k < spans.len() ==> from + 1 <= (#[trigger] spans[k]).line_start
            && spans[k].line_end <= to,
{
    assert forall|k: int| 0 <= k < spans.len() implies from + 1 <= (#[trigger] spans[k]).line_start
        && spans[k].line_end <= to by {
        lemma_window_low(spans, from, to, k);
        lemma_window_high(spans, from, to, k);
    }
}

proof fn lemma_window_low(spans: Seq<Span>, from: int, to: int, k: int)
    requires
        tiles_range(spans, from, to),
        0 <= k < spans.len(),
    ensures
        from + 1 <= spans[k].line_start,
    decreases k,
{
    if k > 0 {
        lemma_window_low(spans, from, to, k - 1);
        assert(spans[k - 1].line_end + 1 == spans[k - 1 + 1].line_start);
    }
}

proof fn lemma_window_high(spans: Seq<Span>, from: int, to: int, k: int)
    requires
        tiles_range(spans, from, to),
        0 <= k < spans.len(),
    ensures
        spans[k].line_end <= to,
    decreases spans.len() - k,
{
    if k < spans.len() - 1 {
        lemma_window_high(spans, from, to, k + 1);
        assert(spans[k].line_end + 1 == spans[k + 1].line_start);
    }
}

} // verus!
