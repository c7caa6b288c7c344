use crate::commands::{Command, CommandContext, PathKind};
use crate::models::DEFAULT_MODEL;
use crate::text::{chars_of, preview, preview_text};
use vstd::prelude::*;

verus! {

/// Shows how a file is cut into chunks.
pub struct InspectCommand {
    pub file_path: String,
    pub model: Option<String>,
    pub context: CommandContext,
}

/// One chunk of the inspected file, with the token estimate for its text.
#[derive(Debug)]
pub struct ChunkInfo {
    pub text: String,
    pub line_start: usize,
    pub line_end: usize,
    /// The kind of symbol the chunk was cut around, if any.
    pub symbol_kind: Option<String>,
    pub tokens: usize,
}

/// The line of the report that describes one chunk.
#[derive(Debug)]
pub struct ChunkRow {
    /// The chunk's position in the file, counted from 1.
    pub number: usize,
    /// The symbol kind followed by `: `, or `text: `.
    pub label: String,
    pub tokens: usize,
    pub line_start: usize,
    pub line_end: usize,
    pub preview: String,
}

/// What an inspection found.
#[derive(Debug)]
pub struct InspectReport {
    pub line_count: usize,
    pub byte_count: usize,
    pub token_count: usize,
    pub chunk_count: usize,
    /// The smallest token estimate of a chunk, 0 when there is no chunk.
    pub min_tokens: usize,
    /// The largest token estimate of a chunk, 0 when there is no chunk.
    pub max_tokens: usize,
    /// The token estimates of all chunks added up.
    pub total_tokens: u128,
    pub rows: Vec<ChunkRow>,
}

/// How many of the first `n` characters of `s` are line feeds.
pub open spec fn line_feeds(s: Seq<char>, n: int) -> nat
    decreases n,
{
    if n <= 0 {
        0
    } else {
        line_feeds(s, n - 1) + if n <= s.len() && s[n - 1] == '\n' {
            1nat
        } else {
            0nat
        }
    }
}

/// The number of lines of a text: one per line feed, and one more for a last
/// line that no line feed ends.
pub open spec fn line_count(s: Seq<char>) -> nat {
    line_feeds(s, s.len() as int) + if s.len() > 0 && s.last() != '\n' {
        1nat
    } else {
        0nat
    }
}

/// The token estimates of the first `n` chunks added up.
pub open spec fn token_sum(chunks: Seq<ChunkInfo>, n: int) -> nat
    decreases n,
{
    if n <= 0 || n > chunks.len() {
        0
    } else {
        token_sum(chunks, n - 1) + chunks[n - 1].tokens as nat
    }
}

/// The label of a chunk.
pub open spec fn label_text(kind: Option<String>) -> Seq<char> {
    match kind {
        Some(k) => k@ + ": "@,
        None => "text: "@,
    }
}

impl ChunkRow {
    /// This row describes `chunk`, the chunk at index `i`.
    pub open spec fn describes(self, chunk: ChunkInfo, i: int) -> bool {
        &&& self.number == i + 1
        &&& self.label@ == label_text(chunk.symbol_kind)
        &&& self.tokens == chunk.tokens
        &&& self.line_start == chunk.line_start
        &&& self.line_end == chunk.line_end
        &&& self.preview@ == preview_text(chunk.text@)
    }
}

impl InspectReport {
    /// This report is the one for a file with this content, token estimate
    /// and chunks.
    pub open spec fn describes(
        self,
        content: Seq<char>,
        tokens: usize,
        chunks: Seq<ChunkInfo>,
    ) -> bool {
        &&& self.line_count == line_count(content)
        &&& self.byte_count == vstd::utf8::encode_utf8(content).len()
        &&& self.token_count == tokens
        &&& self.chunk_count == chunks.len()
        &&& self.total_tokens == token_sum(chunks, chunks.len() as int)
        &&& forall|i: int|
            0 <= i < chunks.len() ==> self.min_tokens <= (#[trigger] chunks[i]).tokens
                <= self.max_tokens
        &&& chunks.len() == 0 ==> self.min_tokens == 0 && self.max_tokens == 0
        &&& chunks.len() > 0 ==> exists|i: int|
            0 <= i < chunks.len() && (#[trigger] chunks[i]).tokens == self.min_tokens
        &&& chunks.len() > 0 ==> exists|i: int|
            0 <= i < chunks.len() && (#[trigger] chunks[i]).tokens == self.max_tokens
        &&& self.rows@.len() == chunks.len()
        &&& forall|i: int|
            0 <= i < chunks.len() ==> (#[trigger] self.rows@[i]).describes(chunks[i], i)
    }
}

proof fn lemma_line_feeds_bound(s: Seq<char>, n: int)
    requires
        n >= 0,
    ensures
        line_feeds(s, n) <= n,
    decreases n,
{
    if n > 0 {
        lemma_line_feeds_bound(s, n - 1);
    }
}

/// The number of lines of `content`.
pub fn count_lines(content: &str) -> (n: usize)
    ensures
        n == line_count(content@),
{
    let v = chars_of(content);
    let mut feeds: usize = 0;
    let mut i: usize = 0;
    while i < v.len()
        invariant
            i <= v.len(),
            feeds <= i,
            feeds == line_feeds(v@, i as int),
        decreases v.len() - i,
    {
        if v[i] == '\n' {
            feeds = feeds + 1;
        }
        i = i + 1;
    }
    if v.len() > 0 && v[v.len() - 1] != '\n' {
        proof {
            lemma_line_feeds_bound(v@, v.len() - 1);
        }
        feeds + 1
    } else {
        feeds
    }
}

fn row_for(chunk: &ChunkInfo, i: usize) -> (row: ChunkRow)
    requires
        i < usize::MAX,
    ensures
        row.describes(*chunk, i as int),
{
    let label = match &chunk.symbol_kind {
        Some(kind) => {
            let mut label = kind.clone();
            label.append(": ");
            label
        },
        None => "text: ".to_owned(),
    };
    ChunkRow {
        number: i + 1,
        label,
        tokens: chunk.tokens,
        line_start: chunk.line_start,
        line_end: chunk.line_end,
        preview: preview(chunk.text.as_str()),
    }
}

impl InspectCommand {
    pub fn new(file_path: String) -> (command: Self)
        ensures
            command.file_path == file_path,
            command.model is None,
            command.context.is_initial(),
    {
        InspectCommand { file_path, model: None, context: CommandContext::default() }
    }

    pub fn with_model(self, model: String) -> (command: Self)
        ensures
            command.model == Some(model),
            command.file_path == self.file_path,
            command.context == self.context,
    {
        let mut command = self;
        command.model = Some(model);
        command
    }

    /// The model whose limits the inspection goes by.
    pub fn model_name(&self) -> (name: String)
        ensures
            name@ == match self.model {
                Some(m) => m@,
                None => DEFAULT_MODEL@,
            },
    {
        match &self.model {
            Some(m) => m.clone(),
            None => DEFAULT_MODEL.to_owned(),
        }
    }

    /// What stops the inspection of a target of this kind, if anything.
    pub open spec fn target_problem(self, kind: PathKind) -> Option<Seq<char>> {
        match kind {
            PathKind::File => None,
            PathKind::Missing => Some("File not found: "@ + self.file_path@),
            _ => Some("Not a file: "@ + self.file_path@),
        }
    }

    /// Only a file can be inspected.
    pub fn check_target(&self, kind: PathKind) -> (checked: Result<(), String>)
        ensures
            self.target_problem(kind) is None <==> checked is Ok,
            checked matches Err(text) ==> self.target_problem(kind) == Some(text@),
    {
        match kind {
            PathKind::File => Ok(()),
            PathKind::Missing => {
                let mut text = "File not found: ".to_owned();
                text.append(self.file_path.as_str());
                Err(text)
            },
            _ => {
                let mut text = "Not a file: ".to_owned();
                text.append(self.file_path.as_str());
                Err(text)
            },
        }
    }

    /// What must hold of the target before the command is run at all.
    pub fn validate_target(&self, kind: PathKind) -> (checked: Result<(), String>)
        ensures
            kind != PathKind::Missing <==> checked is Ok,
            checked matches Err(text) ==> text@ == "File does not exist: "@ + self.file_path@,
    {
        if kind == PathKind::Missing {
            let mut text = "File does not exist: ".to_owned();
            text.append(self.file_path.as_str());
            Err(text)
        } else {
            Ok(())
        }
    }

    /// The report on a file with this content, whose token estimate is
    /// `tokens` and which was cut into `chunks`.
    pub fn summarize(content: &str, tokens: usize, chunks: &Vec<ChunkInfo>) -> (report:
        InspectReport)
        ensures
            report.describes(content@, tokens, chunks@),
    {
        let mut rows: Vec<ChunkRow> = Vec::new();
        let mut min_tokens: usize = 0;
        let mut max_tokens: usize = 0;
        let mut total: u128 = 0;
        let mut i: usize = 0;
        while i < chunks.len()
            invariant
                i <= chunks.len(),
                rows@.len() == i,
                forall|j: int| 0 <= j < i ==> (#[trigger] rows@[j]).describes(chunks@[j], j),
                total == token_sum(chunks@, i as int),
                total <= i * usize::MAX,
                forall|j: int|
                    0 <= j < i ==> min_tokens <= (#[trigger] chunks@[j]).tokens <= max_tokens,
                i == 0 ==> min_tokens == 0 && max_tokens == 0,
                i > 0 ==> exists|j: int|
                    0 <= j < i && (#[trigger] chunks@[j]).tokens == min_tokens,
                i > 0 ==> exists|j: int|
                    0 <= j < i && (#[trigger] chunks@[j]).tokens == max_tokens,
            decreases chunks.len() - i,
        {
            let chunk = &chunks[i];
            let t = chunk.tokens;
            if i == 0 || t < min_tokens {
                min_tokens = t;
            }
            if i == 0 || t > max_tokens {
                max_tokens = t;
            }
            proof {
                assert((i + 1) * usize::MAX == i * usize::MAX + usize::MAX) by (nonlinear_arith);
                assert(i * usize::MAX <= usize::MAX * usize::MAX) by (nonlinear_arith)
                    requires
                        i <= usize::MAX,
                ;
            }
            total = total + t as u128;
            rows.push(row_for(chunk, i));
            i = i + 1;
        }
        InspectReport {
            line_count: count_lines(content),
            byte_count: content.as_bytes().len(),
            token_count: tokens,
            chunk_count: chunks.len(),
            min_tokens,
            max_tokens,
            total_tokens: total,
            rows,
        }
    }
}

impl Command for InspectCommand {
    open spec fn name_text(&self) -> Seq<char> {
        "inspect"@
    }

    open spec fn problem(&self) -> Option<Seq<char>> {
        None
    }

    fn name(&self) -> (name: &'static str) {
        "inspect"
    }

    fn validate(&self) -> (checked: Result<(), String>) {
        Ok(())
    }
}

} // verus!
