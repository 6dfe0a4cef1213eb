//! Text as sequences of characters: character classes, runs, search and
//! trimming.

use vstd::prelude::*;

verus! {

/// The character classes that tag and version text is made of.
#[derive(Debug, Clone, Copy, PartialEq, Eq, Structural)]
pub enum CharClass {
    /// `0` to `9`.
    Digit,
    /// `0` to `9` and `a` to `f`.
    LowerHex,
    /// ASCII letters and digits, `-` and `.`.
    Ident,
    /// Everything but the line feed.
    LineText,
    /// White space, as Unicode defines it.
    WhiteSpace,
}

/// Whether `c` has the Unicode property `White_Space`.
pub uninterp spec fn is_white_space(c: char) -> bool;

/// `char::is_whitespace` of the standard library tells whether a character has
/// the Unicode property `White_Space`.
pub assume_specification[ char::is_whitespace ](c: char) -> (b: bool)
    ensures
        b == is_white_space(c),
;

/// `c` is one of the ASCII digits `0` to `9`.
pub open spec fn is_digit(c: char) -> bool {
    '0' <= c && c <= '9'
}

/// `c` is an ASCII digit or one of `a` to `f`.
pub open spec fn is_lower_hex(c: char) -> bool {
    is_digit(c) || ('a' <= c && c <= 'f')
}

/// `c` is an ASCII letter or digit, `-` or `.`.
pub open spec fn is_ident_char(c: char) -> bool {
    is_digit(c) || ('a' <= c && c <= 'z') || ('A' <= c && c <= 'Z') || c == '-' || c == '.'
}

/// `c` belongs to `class`.
pub open spec fn in_class(class: CharClass, c: char) -> bool {
    match class {
        CharClass::Digit => is_digit(c),
        CharClass::LowerHex => is_lower_hex(c),
        CharClass::Ident => is_ident_char(c),
        CharClass::LineText => c != '\n',
        CharClass::WhiteSpace => is_white_space(c),
    }
}

/// Every character of `t` belongs to `class`.
pub open spec fn all_in_class(t: Seq<char>, class: CharClass) -> bool {
    forall|i: int| 0 <= i < t.len() ==> in_class(class, #[trigger] t[i])
}

/// The end of the longest run of `class` characters of `s` that starts at `from`.
pub open spec fn run_end(s: Seq<char>, from: int, class: CharClass) -> int
    decreases s.len() - from,
{
    if 0 <= from < s.len() && in_class(class, s[from]) {
        run_end(s, from + 1, class)
    } else {
        from
    }
}

/// A run ends within the text, holds only characters of its class, and stops at
/// the end of the text or at the first character of another class.
pub proof fn lemma_run_end(s: Seq<char>, from: int, class: CharClass)
    requires
        0 <= from <= s.len(),
    ensures
        from <= run_end(s, from, class) <= s.len(),
        forall|i: int| from <= i < run_end(s, from, class) ==> in_class(class, #[trigger] s[i]),
        run_end(s, from, class) < s.len() ==> !in_class(class, s[run_end(s, from, class)]),
    decreases s.len() - from,
{
    if from < s.len() && in_class(class, s[from]) {
        lemma_run_end(s, from + 1, class);
    }
}

/// A stretch of `class` characters that cannot be extended is the run.
pub proof fn lemma_run_end_is(s: Seq<char>, from: int, end: int, class: CharClass)
    requires
        0 <= from <= end <= s.len(),
        forall|i: int| from <= i < end ==> in_class(class, #[trigger] s[i]),
        end < s.len() ==> !in_class(class, s[end]),
    ensures
        run_end(s, from, class) == end,
    decreases end - from,
{
    if from < end {
        lemma_run_end_is(s, from + 1, end, class);
    }
}

/// Whether `c` belongs to `class`.
pub(crate) fn char_in_class(class: CharClass, c: char) -> (b: bool)
    ensures
        b == in_class(class, c),
{
    let digit = '0' <= c && c <= '9';
    match class {
        CharClass::Digit => digit,
        CharClass::LowerHex => digit || ('a' <= c && c <= 'f'),
        CharClass::Ident => digit || ('a' <= c && c <= 'z') || ('A' <= c && c <= 'Z') || c == '-'
            || c == '.',
        CharClass::LineText => c != '\n',
        CharClass::WhiteSpace => c.is_whitespace(),
    }
}

/// Scans the run of `class` characters of `text` that starts at `from`.
pub(crate) fn scan_run(text: &Vec<char>, from: usize, class: CharClass) -> (end: usize)
    requires
        from <= text.len(),
    ensures
        end == run_end(text@, from as int, class),
        from <= end <= text.len(),
{
    let mut end: usize = from;
    while end < text.len() && char_in_class(class, text[end])
        invariant
            from <= end <= text.len(),
            run_end(text@, from as int, class) == run_end(text@, end as int, class),
        decreases text.len() - end,
    {
        end = end + 1;
    }
    end
}

/// The start of the longest run of `class` characters of `s` that ends at `to`.
pub open spec fn run_start(s: Seq<char>, to: int, class: CharClass) -> int
    decreases to,
{
    if 0 < to <= s.len() && in_class(class, s[to - 1]) {
        run_start(s, to - 1, class)
    } else {
        to
    }
}

/// A run that is followed back starts within the text, holds only characters of
/// its class, and stops at the start of the text or behind a character of another
/// class.
pub proof fn lemma_run_start(s: Seq<char>, to: int, class: CharClass)
    requires
        0 <= to <= s.len(),
    ensures
        0 <= run_start(s, to, class) <= to,
        forall|i: int| run_start(s, to, class) <= i < to ==> in_class(class, #[trigger] s[i]),
        run_start(s, to, class) > 0 ==> !in_class(class, s[run_start(s, to, class) - 1]),
    decreases to,
{
    if 0 < to && in_class(class, s[to - 1]) {
        lemma_run_start(s, to - 1, class);
    }
}

/// Scans back the run of `class` characters of `text` that ends at `to`, no
/// further than `floor`.
pub(crate) fn scan_run_back(text: &Vec<char>, floor: usize, to: usize, class: CharClass) -> (start: usize)
    requires
        floor <= to <= text.len(),
    ensures
        floor <= start <= to,
        start == if run_start(text@, to as int, class) < floor {
            floor as int
        } else {
            run_start(text@, to as int, class)
        },
{
    let mut start: usize = to;
    proof {
        lemma_run_start(text@, to as int, class);
    }
    while start > floor && char_in_class(class, text[start - 1])
        invariant
            floor <= start <= to <= text.len(),
            run_start(text@, to as int, class) == run_start(text@, start as int, class),
            run_start(text@, to as int, class) <= start,
        decreases start,
    {
        start = start - 1;
        proof {
            lemma_run_start(text@, start as int, class);
        }
    }
    start
}

/// `s` without the white space at its start and at its end.
pub open spec fn trim_spec(s: Seq<char>) -> Seq<char> {
    let start = run_end(s, 0, CharClass::WhiteSpace);
    let end = run_start(s, s.len() as int, CharClass::WhiteSpace);
    if start <= end {
        s.subrange(start, end)
    } else {
        Seq::empty()
    }
}

/// `pattern` stands in `s` at `at`.
pub open spec fn occurs_at(s: Seq<char>, pattern: Seq<char>, at: int) -> bool {
    &&& 0 <= at
    &&& at + pattern.len() <= s.len()
    &&& forall|j: int| 0 <= j < pattern.len() ==> #[trigger] s[at + j] == pattern[j]
}

/// The first place from `from` on where `pattern` stands in `s`.
pub open spec fn first_occurrence(s: Seq<char>, pattern: Seq<char>, from: int) -> Option<int>
    decreases s.len() - from,
{
    if from < 0 || from + pattern.len() > s.len() {
        None
    } else if occurs_at(s, pattern, from) {
        Some(from)
    } else {
        first_occurrence(s, pattern, from + 1)
    }
}

/// Where the first occurrence is, `pattern` stands, and nowhere before it from
/// `from` on.
pub proof fn lemma_first_occurrence(s: Seq<char>, pattern: Seq<char>, from: int)
    requires
        0 <= from,
    ensures
        match first_occurrence(s, pattern, from) {
            Some(at) => from <= at && occurs_at(s, pattern, at) && forall|i: int|
                from <= i < at ==> !occurs_at(s, pattern, i),
            None => forall|i: int| from <= i ==> !occurs_at(s, pattern, i),
        },
    decreases s.len() - from,
{
    if from + pattern.len() <= s.len() && !occurs_at(s, pattern, from) {
        lemma_first_occurrence(s, pattern, from + 1);
    }
}

/// Searching a text from `lo` on is searching what is left of it behind `lo`.
pub proof fn lemma_first_occurrence_shift(s: Seq<char>, pattern: Seq<char>, lo: int, from: int)
    requires
        0 <= lo <= s.len(),
        0 <= from,
    ensures
        first_occurrence(s.skip(lo), pattern, from) == match first_occurrence(s, pattern, lo + from) {
            Some(at) => Some(at - lo),
            None => None,
        },
    decreases s.len() - lo - from,
{
    let tail = s.skip(lo);
    if from + pattern.len() <= tail.len() {
        if occurs_at(s, pattern, lo + from) {
            assert forall|j: int| 0 <= j < pattern.len() implies #[trigger] tail[from + j]
                == pattern[j] by {
                assert(s[lo + from + j] == pattern[j]);
            }
        }
        if occurs_at(tail, pattern, from) {
            assert forall|j: int| 0 <= j < pattern.len() implies #[trigger] s[lo + from + j]
                == pattern[j] by {
                assert(tail[from + j] == pattern[j]);
            }
        }
        if !occurs_at(tail, pattern, from) {
            lemma_first_occurrence_shift(s, pattern, lo, from + 1);
        }
    }
}

/// Whether `pattern` stands in `text` at `at` and ends no later than `end`.
pub(crate) fn stands_at(text: &Vec<char>, end: usize, at: usize, pattern: &Vec<char>) -> (found: bool)
    requires
        at <= end <= text.len(),
    ensures
        found == occurs_at(text@.subrange(0, end as int), pattern@, at as int),
{
    if end - at < pattern.len() {
        return false;
    }
    let ghost line = text@.subrange(0, end as int);
    let mut j: usize = 0;
    while j < pattern.len()
        invariant
            j <= pattern.len(),
            at + pattern.len() <= end <= text.len(),
            line == text@.subrange(0, end as int),
            forall|k: int| 0 <= k < j ==> #[trigger] line[at + k] == pattern@[k],
        decreases pattern.len() - j,
    {
        if text[at + j] != pattern[j] {
            assert(line[at + j] != pattern@[j as int]);
            return false;
        }
        j = j + 1;
    }
    true
}

/// The first place from `from` on where `pattern` stands in `text` before `end`.
pub(crate) fn find_before(text: &Vec<char>, end: usize, from: usize, pattern: &Vec<char>) -> (found: Option<
    usize,
>)
    requires
        from <= end <= text.len(),
    ensures
        match found {
            Some(at) => from <= at && at + pattern@.len() <= end && first_occurrence(
                text@.subrange(0, end as int),
                pattern@,
                from as int,
            ) == Some(at as int),
            None => first_occurrence(text@.subrange(0, end as int), pattern@, from as int)
                is None,
        },
{
    let ghost line = text@.subrange(0, end as int);
    let mut at: usize = from;
    while end - at >= pattern.len()
        invariant
            from <= at <= end <= text.len(),
            line == text@.subrange(0, end as int),
            first_occurrence(line, pattern@, from as int) == first_occurrence(
                line,
                pattern@,
                at as int,
            ),
        decreases end - at,
    {
        if stands_at(text, end, at, pattern) {
            return Some(at);
        }
        at = at + 1;
    }
    None
}

/// The text of an optional string.
pub open spec fn text_of(s: Option<String>) -> Option<Seq<char>> {
    match s {
        Some(s) => Some(s@),
        None => None,
    }
}

/// The text of an optional string slice.
pub open spec fn str_text_of(s: Option<&str>) -> Option<Seq<char>> {
    match s {
        Some(s) => Some(s@),
        None => None,
    }
}

/// The texts of a list of strings.
pub open spec fn texts(strings: Seq<String>) -> Seq<Seq<char>> {
    Seq::new(strings.len(), |i: int| strings[i]@)
}

/// The characters of `s`, in order.
pub fn chars_of(s: &str) -> (v: Vec<char>)
    ensures
        v@ == s@,
{
    broadcast use vstd::string::group_string_axioms;

    let mut v: Vec<char> = Vec::new();
    for c in it: s.chars()
        invariant
            it.seq() == s@,
            v@ == it.seq().take(it.index()),
    {
        v.push(c);
    }
    v
}

/// Where `text` without the white space at its start and end lies.
pub(crate) fn trim_bounds(text: &Vec<char>) -> (bounds: (usize, usize))
    ensures
        bounds.0 <= bounds.1 <= text.len(),
        text@.subrange(bounds.0 as int, bounds.1 as int) == trim_spec(text@),
{
    let start = scan_run(text, 0, CharClass::WhiteSpace);
    let end = scan_run_back(text, start, text.len(), CharClass::WhiteSpace);
    proof {
        lemma_run_end(text@, 0, CharClass::WhiteSpace);
        lemma_run_start(text@, text@.len() as int, CharClass::WhiteSpace);
    }
    (start, end)
}

/// `s` without the white space at its start and at its end.
pub fn trim(s: &str) -> (trimmed: String)
    ensures
        trimmed@ == trim_spec(s@),
{
    let text = chars_of(s);
    let bounds = trim_bounds(&text);
    slice_of(s, bounds.0, bounds.1)
}

/// The characters of `s` from `from` up to `to`, as a string of their own.
pub(crate) fn slice_of(s: &str, from: usize, to: usize) -> (t: String)
    requires
        from <= to <= s@.len(),
    ensures
        t@ == s@.subrange(from as int, to as int),
{
    s.substring_char(from, to).to_owned()
}

} // verus!
