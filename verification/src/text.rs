use vstd::prelude::*;

verus! {

/// Whether two string slices hold the same characters.
pub fn text_eq(a: &str, b: &str) -> (same: bool)
    ensures
        same == (a@ == b@),
{
    a.to_owned() == b.to_owned()
}

/// The text of a single decimal digit.
pub open spec fn digit_text(d: nat) -> Seq<char> {
    if d == 0 {
        "0"@
    } else if d == 1 {
        "1"@
    } else if d == 2 {
        "2"@
    } else if d == 3 {
        "3"@
    } else if d == 4 {
        "4"@
    } else if d == 5 {
        "5"@
    } else if d == 6 {
        "6"@
    } else if d == 7 {
        "7"@
    } else if d == 8 {
        "8"@
    } else {
        "9"@
    }
}

/// The decimal rendering of a natural number, without leading zeros.
pub open spec fn decimal_text(n: nat) -> Seq<char>
    decreases n,
{
    if n < 10 {
        digit_text(n)
    } else {
        decimal_text(n / 10) + digit_text(n % 10)
    }
}

fn digit_str(d: u128) -> (s: &'static str)
    requires
        d < 10,
    ensures
        s@ == digit_text(d as nat),
{
    if d == 0 {
        "0"
    } else if d == 1 {
        "1"
    } else if d == 2 {
        "2"
    } else if d == 3 {
        "3"
    } else if d == 4 {
        "4"
    } else if d == 5 {
        "5"
    } else if d == 6 {
        "6"
    } else if d == 7 {
        "7"
    } else if d == 8 {
        "8"
    } else {
        "9"
    }
}

/// Renders `n` in decimal.
pub fn decimal(n: u128) -> (s: String)
    ensures
        s@ == decimal_text(n as nat),
    decreases n,
{
    if n < 10 {
        digit_str(n).to_owned()
    } else {
        let mut head = decimal(n / 10);
        head.append(digit_str(n % 10));
        head
    }
}

/// The part of `s` after its last `/`, or all of `s` when it holds none.
pub open spec fn last_component(s: Seq<char>) -> Seq<char>
    decreases s.len(),
{
    if s.len() == 0 {
        s
    } else if s.last() == '/' {
        Seq::<char>::empty()
    } else {
        last_component(s.drop_last()).push(s.last())
    }
}

/// The file name at the end of a `/`-separated path.
pub fn short_name(path: &str) -> (name: String)
    ensures
        name@ == last_component(path@),
{
    let n = path.unicode_len();
    let mut start: usize = n;
    while start > 0 && path.get_char(start - 1) != '/'
        invariant
            0 <= start <= n,
            n == path@.len(),
            forall|i: int| start <= i < n ==> path@[i] != '/',
        decreases start,
    {
        start = start - 1;
    }
    proof {
        lemma_tail_without_slash(path@, start as int);
    }
    path.substring_char(start, n).to_owned()
}

/// A slash-free tail of `s` that is preceded by a slash, or is all of `s`, is
/// its last component.
proof fn lemma_tail_without_slash(s: Seq<char>, start: int)
    requires
        0 <= start <= s.len(),
        forall|i: int| start <= i < s.len() ==> s[i] != '/',
        start > 0 ==> s[start - 1] == '/',
    ensures
        last_component(s) == s.subrange(start, s.len() as int),
    decreases s.len(),
{
    if s.len() == 0 {
        assert(s.subrange(0, 0) =~= s);
    } else if s.last() == '/' {
        assert(start == s.len());
        assert(s.subrange(start, s.len() as int) =~= Seq::<char>::empty());
    } else {
        let t = s.drop_last();
        assert(start < s.len());
        lemma_tail_without_slash(t, start);
        assert(t.subrange(start, t.len() as int).push(s.last()) =~= s.subrange(
            start,
            s.len() as int,
        ));
    }
}

/// The characters of `s`, in order.
pub fn chars_of(s: &str) -> (v: Vec<char>)
    ensures
        v@ == s@,
{
    let mut v: Vec<char> = Vec::new();
    for c in it: s.chars()
        invariant
            v@ == it.seq().take(it.index@),
    {
        v.push(c);
    }
    v
}

/// Whether `c` is white space: a character with the Unicode property
/// `White_Space`.
pub open spec fn is_space(c: char) -> bool {
    let n = c as u32;
    (0x09 <= n <= 0x0d) || n == 0x20 || n == 0x85 || n == 0xa0 || n == 0x1680 || (0x2000 <= n
        <= 0x200a) || n == 0x2028 || n == 0x2029 || n == 0x202f || n == 0x205f || n == 0x3000
}

/// Whether `c` is white space.
pub fn char_is_space(c: char) -> (space: bool)
    ensures
        space == is_space(c),
{
    let n: u32 = c as u32;
    (0x09 <= n && n <= 0x0d) || n == 0x20 || n == 0x85 || n == 0xa0 || n == 0x1680 || (0x2000 <= n
        && n <= 0x200a) || n == 0x2028 || n == 0x2029 || n == 0x202f || n == 0x205f || n == 0x3000
}

/// The index of the first character at or after `i` that is not white space,
/// or the length of `s` when there is none.
pub open spec fn text_start(s: Seq<char>, i: int) -> int
    decreases s.len() - i,
{
    if i >= s.len() {
        s.len() as int
    } else if i >= 0 && !is_space(s[i]) {
        i
    } else {
        text_start(s, i + 1)
    }
}

/// One past the last character before `j` that is not white space, or 0 when
/// there is none.
pub open spec fn text_end(s: Seq<char>, j: int) -> int
    decreases j,
{
    if j <= 0 {
        0
    } else if j <= s.len() && !is_space(s[j - 1]) {
        j
    } else {
        text_end(s, j - 1)
    }
}

/// `s` without the white space at its two ends.
pub open spec fn trimmed(s: Seq<char>) -> Seq<char> {
    let a = text_start(s, 0);
    let b = text_end(s, s.len() as int);
    if a >= b {
        Seq::<char>::empty()
    } else {
        s.subrange(a, b)
    }
}

/// The bounds that `text_start` and `text_end` stay within.
pub proof fn lemma_text_bounds(s: Seq<char>, i: int, j: int)
    requires
        0 <= i <= s.len(),
        0 <= j <= s.len(),
    ensures
        i <= text_start(s, i) <= s.len(),
        0 <= text_end(s, j) <= j,
        forall|k: int| i <= k < text_start(s, i) ==> is_space(s[k]),
        forall|k: int| text_end(s, j) <= k < j ==> is_space(s[k]),
        text_start(s, i) < s.len() ==> !is_space(s[text_start(s, i)]),
        text_end(s, j) > 0 ==> !is_space(s[text_end(s, j) - 1]),
    decreases s.len() - i, j,
{
    if i < s.len() && is_space(s[i]) {
        lemma_text_bounds(s, i + 1, 0);
    }
    if j > 0 && is_space(s[j - 1]) {
        lemma_text_bounds(s, s.len() as int, j - 1);
    }
}

fn scan_start(v: &Vec<char>, from: usize) -> (a: usize)
    requires
        from <= v.len(),
    ensures
        a == text_start(v@, from as int),
        from <= a <= v.len(),
{
    let mut a: usize = from;
    while a < v.len() && char_is_space(v[a])
        invariant
            from <= a <= v.len(),
            text_start(v@, from as int) == text_start(v@, a as int),
        decreases v.len() - a,
    {
        a = a + 1;
    }
    a
}

fn scan_end(v: &Vec<char>, upto: usize) -> (b: usize)
    requires
        upto <= v.len(),
    ensures
        b == text_end(v@, upto as int),
        b <= upto,
{
    let mut b: usize = upto;
    while b > 0 && char_is_space(v[b - 1])
        invariant
            b <= upto <= v.len(),
            text_end(v@, upto as int) == text_end(v@, b as int),
        decreases b,
    {
        b = b - 1;
    }
    b
}

/// `s` without the white space at its two ends.
pub fn trim(s: &str) -> (t: String)
    ensures
        t@ == trimmed(s@),
{
    let v = chars_of(s);
    let a = scan_start(&v, 0);
    let b = scan_end(&v, v.len());
    if a >= b {
        String::new()
    } else {
        s.substring_char(a, b).to_owned()
    }
}

/// Whether `s` holds nothing but white space.
pub fn is_blank(s: &str) -> (blank: bool)
    ensures
        blank == (trimmed(s@).len() == 0),
        blank == (forall|k: int| 0 <= k < s@.len() ==> is_space(s@[k])),
{
    let v = chars_of(s);
    let a = scan_start(&v, 0);
    proof {
        lemma_text_bounds(v@, 0, v@.len() as int);
        if a < v.len() {
            assert(text_end(v@, v@.len() as int) > a) by {
                if text_end(v@, v@.len() as int) <= a {
                    assert(is_space(v@[a as int]));
                }
            }
        }
    }
    a == v.len()
}

/// Whether an answer typed at a yes/no prompt means yes: a single `y` or `Y`,
/// white space around it aside.
pub open spec fn means_yes(input: Seq<char>) -> bool {
    trimmed(input) == seq!['y'] || trimmed(input) == seq!['Y']
}

/// Whether an answer typed at a yes/no prompt means yes.
pub fn confirms(input: &str) -> (yes: bool)
    ensures
        yes == means_yes(input@),
{
    let v = chars_of(input);
    let a = scan_start(&v, 0);
    let b = scan_end(&v, v.len());
    proof {
        if a < b {
            assert(trimmed(input@).len() == b - a);
            assert(trimmed(input@)[0] == v@[a as int]);
        }
    }
    if a < b && b - a == 1 {
        let c = v[a];
        proof {
            assert(trimmed(input@) =~= seq![c]);
            assert(seq!['y'][0] == 'y');
            assert(seq!['Y'][0] == 'Y');
        }
        c == 'y' || c == 'Y'
    } else {
        proof {
            assert(seq!['y'].len() == 1);
            assert(seq!['Y'].len() == 1);
        }
        false
    }
}

/// The start of the line that holds index `k`.
pub open spec fn line_start(s: Seq<char>, k: int) -> int
    decreases k,
{
    if k <= 0 {
        0
    } else if k <= s.len() && s[k - 1] == '\n' {
        k
    } else {
        line_start(s, k - 1)
    }
}

/// The end of the line that holds index `k`: the index of its line feed, or
/// the length of `s`.
pub open spec fn line_end(s: Seq<char>, k: int) -> int
    decreases s.len() - k,
{
    if k >= s.len() {
        s.len() as int
    } else if k >= 0 && s[k] == '\n' {
        k
    } else {
        line_end(s, k + 1)
    }
}

/// How many characters of a line a preview shows at most.
pub const PREVIEW_WIDTH: usize = 60;

/// The preview of a piece of text: its first line that is not blank, cut to
/// `PREVIEW_WIDTH` characters and then trimmed; empty when every line is blank.
pub open spec fn preview_text(s: Seq<char>) -> Seq<char> {
    let k = text_start(s, 0);
    if k >= s.len() {
        Seq::<char>::empty()
    } else {
        let a = line_start(s, k);
        let b = line_end(s, k);
        let cut = if b - a > PREVIEW_WIDTH as int {
            a + PREVIEW_WIDTH as int
        } else {
            b
        };
        trimmed(s.subrange(a, cut))
    }
}

/// The preview of a piece of text.
pub fn preview(text: &str) -> (p: String)
    ensures
        p@ == preview_text(text@),
{
    let v = chars_of(text);
    let k = scan_start(&v, 0);
    if k >= v.len() {
        return String::new();
    }
    let mut a: usize = k;
    while a > 0 && v[a - 1] != '\n'
        invariant
            a <= k < v.len(),
            line_start(v@, k as int) == line_start(v@, a as int),
        decreases a,
    {
        a = a - 1;
    }
    let mut b: usize = k;
    while b < v.len() && v[b] != '\n'
        invariant
            k <= b <= v.len(),
            line_end(v@, k as int) == line_end(v@, b as int),
        decreases v.len() - b,
    {
        b = b + 1;
    }
    let cut: usize = if b - a > PREVIEW_WIDTH {
        a + PREVIEW_WIDTH
    } else {
        b
    };
    trim(text.substring_char(a, cut))
}

/// The items of `items` in order, with `sep` between each two.
pub open spec fn joined(items: Seq<Seq<char>>, sep: Seq<char>) -> Seq<char>
    decreases items.len(),
{
    if items.len() == 0 {
        Seq::<char>::empty()
    } else if items.len() == 1 {
        items[0]
    } else {
        joined(items.drop_last(), sep) + sep + items.last()
    }
}

/// Joins `items` with `sep` between each two.
pub fn join(items: &Vec<String>, sep: &str) -> (text: String)
    ensures
        text@ == joined(items.deep_view(), sep@),
{
    let mut text = String::new();
    let ghost all = items.deep_view();
    let mut i: usize = 0;
    assert(all.take(0) =~= Seq::<Seq<char>>::empty());
    while i < items.len()
        invariant
            i <= items.len(),
            all == items.deep_view(),
            text@ == joined(all.take(i as int), sep@),
        decreases items.len() - i,
    {
        if i > 0 {
            text.append(sep);
        }
        text.append(items[i].as_str());
        proof {
            let next = all.take(i + 1);
            assert(next.drop_last() =~= all.take(i as int));
            assert(next.last() == items[i as int]@);
            if i == 0 {
                assert(text@ =~= next[0]);
            }
        }
        i = i + 1;
    }
    assert(all.take(i as int) =~= all);
    text
}

/// A copy of `items`.
pub fn copy_strings(items: &Vec<String>) -> (copy: Vec<String>)
    ensures
        copy.deep_view() == items.deep_view(),
{
    let mut copy: Vec<String> = Vec::new();
    let mut i: usize = 0;
    while i < items.len()
        invariant
            i <= items@.len(),
            copy@.len() == i,
            forall|k: int| 0 <= k < i ==> copy@[k]@ == items@[k]@,
        decreases items@.len() - i,
    {
        copy.push(items[i].clone());
        i = i + 1;
    }
    proof {
        assert(copy.deep_view() =~= items.deep_view());
    }
    copy
}

/// Whether `items` holds `text`.
pub fn contains_text(items: &Vec<String>, text: &str) -> (found: bool)
    ensures
        found == items.deep_view().contains(text@),
{
    let ghost all = items.deep_view();
    let mut i: usize = 0;
    while i < items.len()
        invariant
            i <= items@.len(),
            all == items.deep_view(),
            forall|k: int| 0 <= k < i ==> all[k] != text@,
        decreases items@.len() - i,
    {
        if text_eq(items[i].as_str(), text) {
            assert(all[i as int] == text@);
            return true;
        }
        i = i + 1;
    }
    false
}

} // verus!
