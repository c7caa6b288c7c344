use vstd::prelude::*;

verus! {

/// Whether `c` has a meaning of its own in a regular expression.
pub open spec fn is_meta(c: char) -> bool {
    c == '\\' || c == '.' || c == '+' || c == '*' || c == '?' || c == '(' || c == ')' || c == '|'
        || c == '[' || c == ']' || c == '{' || c == '}' || c == '^' || c == '$' || c == '#' || c
        == '&' || c == '-' || c == '~'
}

/// `s` with a backslash before each character that has a meaning of its own
/// in a regular expression.
pub open spec fn escaped(s: Seq<char>) -> Seq<char>
    decreases s.len(),
{
    if s.len() == 0 {
        s
    } else if is_meta(s.last()) {
        escaped(s.drop_last()).push('\\').push(s.last())
    } else {
        escaped(s.drop_last()).push(s.last())
    }
}

/// Calls `regex::escape`. The contract states what `regex_syntax::escape_into`
/// does: it copies the text character by character and puts a backslash before
/// each character for which `regex_syntax::is_meta_character` holds.
#[verifier::external_body]
fn escape_literal(text: &str) -> (quoted: String)
    ensures
        quoted@ == escaped(text@),
{
    regex::escape(text)
}

/// How the text of a query is to be read.
#[derive(Clone, Copy, Debug, PartialEq, Eq, Structural)]
pub struct PatternFlags {
    /// The query is literal text, not a regular expression.
    pub fixed_strings: bool,
    /// A match must begin and end at a word boundary.
    pub word_regexp: bool,
    /// Upper and lower case are the same.
    pub ignore_case: bool,
}

/// The regular expression that a query stands for.
pub open spec fn pattern_text(query: Seq<char>, flags: PatternFlags) -> Seq<char> {
    let core = if flags.fixed_strings {
        escaped(query)
    } else {
        query
    };
    let bounded = if flags.word_regexp {
        "\\b(?:"@ + core + ")\\b"@
    } else {
        core
    };
    if flags.ignore_case {
        "(?i)"@ + bounded
    } else {
        bounded
    }
}

/// Builds the regular expression that a query stands for.
pub fn build_pattern(query: &str, flags: PatternFlags) -> (pattern: String)
    ensures
        pattern@ == pattern_text(query@, flags),
{
    let core = if flags.fixed_strings {
        escape_literal(query)
    } else {
        query.to_owned()
    };
    let bounded = if flags.word_regexp {
        let mut b = "\\b(?:".to_owned();
        b.append(core.as_str());
        b.append(")\\b");
        b
    } else {
        core
    };
    if flags.ignore_case {
        let mut p = "(?i)".to_owned();
        p.append(bounded.as_str());
        p
    } else {
        bounded
    }
}

/// The matches of the regular expression `pattern` in `text`, each as the
/// byte offsets at which it starts and ends, in the order in which they are
/// found; `None` where `pattern` is no regular expression.
pub uninterp spec fn regex_spans(pattern: Seq<char>, text: Seq<char>) -> Option<Seq<(usize, usize)>>;

/// Compiles `pattern` with `regex::Regex::new` and walks `text` with
/// `Regex::find_iter`, keeping the start and end of each match. The contract
/// gives the outcome its name and claims nothing else of it.
#[verifier::external_body]
pub(crate) fn find_spans(pattern: &str, text: &str) -> (found: Option<Vec<(usize, usize)>>)
    ensures
        match found {
            Some(spans) => regex_spans(pattern@, text@) == Some(spans@),
            None => regex_spans(pattern@, text@) is None,
        },
{
    match regex::Regex::new(pattern) {
        Ok(re) => Some(re.find_iter(text).map(|m| (m.start(), m.end())).collect()),
        Err(_) => None,
    }
}

/// The spans lie within `len` bytes, none ends before it starts, and each
/// starts no earlier than the one before it ends.
pub open spec fn spans_in_order(spans: Seq<(usize, usize)>, len: int) -> bool {
    &&& forall|i: int| 0 <= i < spans.len() ==> (#[trigger] spans[i]).0 <= spans[i].1 <= len
    &&& forall|i: int| 0 <= i < spans.len() - 1 ==> (#[trigger] spans[i]).1 <= spans[i + 1].0
}

/// Whether the spans are in order within `len` bytes.
pub fn check_spans_in_order(spans: &Vec<(usize, usize)>, len: usize) -> (ok: bool)
    ensures
        ok == spans_in_order(spans@, len as int),
{
    let mut i: usize = 0;
    while i < spans.len()
        invariant
            i <= spans@.len(),
            forall|k: int| 0 <= k < i ==> (#[trigger] spans@[k]).0 <= spans@[k].1 <= len,
            forall|k: int| 0 <= k < i - 1 ==> (#[trigger] spans@[k]).1 <= spans@[k + 1].0,
        decreases spans@.len() - i,
    {
        let s = spans[i];
        if s.0 > s.1 || s.1 > len {
            return false;
        }
        if i > 0 && spans[i - 1].1 > s.0 {
            assert(!(spans@[i - 1].1 <= spans@[i - 1 + 1].0));
            return false;
        }
        i = i + 1;
    }
    true
}

} // verus!
