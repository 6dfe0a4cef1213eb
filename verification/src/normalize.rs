//! Turning tag names, refs and `git describe` output into text that the version
//! grammar can be tried on.

use crate::text::{
    chars_of, is_digit, is_lower_hex, lemma_run_start, scan_run_back, slice_of, stands_at,
    CharClass,
};
use vstd::prelude::*;

verus! {

/// The ref prefix under which tags are listed: `refs/tags/`.
pub open spec fn refs_tags_prefix() -> Seq<char> {
    seq!['r', 'e', 'f', 's', '/', 't', 'a', 'g', 's', '/']
}

/// `s` without a leading `refs/tags/`.
pub open spec fn strip_refs_prefix(s: Seq<char>) -> Seq<char> {
    if refs_tags_prefix().is_prefix_of(s) {
        s.skip(10)
    } else {
        s
    }
}

/// Where the last `/`-delimited segment of `s` starts: behind the last `/`, or at 0.
pub open spec fn segment_start(s: Seq<char>) -> int
    decreases s.len(),
{
    if s.len() == 0 {
        0
    } else if s.last() == '/' {
        s.len() as int
    } else {
        segment_start(s.drop_last())
    }
}

/// The last `/`-delimited segment of `s`; `s` itself where it holds no `/`.
pub open spec fn last_segment(s: Seq<char>) -> Seq<char> {
    s.skip(segment_start(s))
}

/// From `at` on, `s` reads `-`, one or more digits, `-g` (the `-` at `dash`), and
/// one or more lowercase hex digits up to its end.
pub open spec fn describe_suffix_at(s: Seq<char>, at: int, dash: int) -> bool {
    &&& 0 <= at
    &&& at + 1 < dash
    &&& dash + 2 < s.len()
    &&& s[at] == '-'
    &&& forall|i: int| at < i < dash ==> is_digit(#[trigger] s[i])
    &&& s[dash] == '-'
    &&& s[dash + 1] == 'g'
    &&& forall|i: int| dash + 1 < i < s.len() ==> is_lower_hex(#[trigger] s[i])
}

/// `s` ends in the suffix that `git describe` appends off a tag: the number of
/// commits since the tag and the abbreviated commit hash.
pub open spec fn has_describe_suffix(s: Seq<char>) -> bool {
    exists|at: int, dash: int| describe_suffix_at(s, at, dash)
}

/// Where the describe suffix of `s` starts.
pub open spec fn describe_suffix_start(s: Seq<char>) -> int
    recommends
        has_describe_suffix(s),
{
    (choose|at: int, dash: int| describe_suffix_at(s, at, dash)).0
}

/// `s` without its describe suffix, if it has one.
pub open spec fn strip_describe_suffix(s: Seq<char>) -> Seq<char> {
    if has_describe_suffix(s) {
        s.take(describe_suffix_start(s))
    } else {
        s
    }
}

/// `s` has more than one character and starts with `v`.
pub open spec fn has_version_mark(s: Seq<char>) -> bool {
    s.len() > 1 && s[0] == 'v'
}

/// `s` without one leading `v`; a lone `v` stays.
pub open spec fn strip_version_mark(s: Seq<char>) -> Seq<char> {
    if has_version_mark(s) {
        s.skip(1)
    } else {
        s
    }
}

/// The text that is tried as a version for the tag, ref or describe output `raw`:
/// the ref prefix goes, then all but the last path segment, then the describe
/// suffix, then one leading `v`.
pub open spec fn normalize_spec(raw: Seq<char>) -> Seq<char> {
    strip_version_mark(strip_describe_suffix(last_segment(strip_refs_prefix(raw))))
}

/// The last segment starts within the text, just behind a `/` unless at 0, and
/// holds no `/`.
pub proof fn lemma_segment_start(s: Seq<char>)
    ensures
        0 <= segment_start(s) <= s.len(),
        segment_start(s) > 0 ==> s[segment_start(s) - 1] == '/',
        forall|i: int| segment_start(s) <= i < s.len() ==> #[trigger] s[i] != '/',
    decreases s.len(),
{
    if s.len() > 0 && s.last() != '/' {
        lemma_segment_start(s.drop_last());
        assert forall|i: int| segment_start(s) <= i < s.len() implies #[trigger] s[i] != '/' by {
            if i < s.len() - 1 {
                assert(s.drop_last()[i] == s[i]);
            }
        }
    }
}

/// A position just behind a `/` (or 0) with no `/` after it is where the last
/// segment starts.
pub proof fn lemma_segment_start_is(s: Seq<char>, start: int)
    requires
        0 <= start <= s.len(),
        start > 0 ==> s[start - 1] == '/',
        forall|i: int| start <= i < s.len() ==> #[trigger] s[i] != '/',
    ensures
        segment_start(s) == start,
    decreases s.len(),
{
    if s.len() > 0 && s.last() != '/' {
        lemma_segment_start_is(s.drop_last(), start);
    }
}

/// A text has at most one describe suffix.
pub proof fn lemma_describe_suffix_unique(s: Seq<char>, at1: int, dash1: int, at2: int, dash2: int)
    requires
        describe_suffix_at(s, at1, dash1),
        describe_suffix_at(s, at2, dash2),
    ensures
        at1 == at2,
        dash1 == dash2,
{
}

/// The describe suffix of `s` starts at `at` and nowhere else.
pub proof fn lemma_describe_suffix_start_is(s: Seq<char>, at: int, dash: int)
    requires
        describe_suffix_at(s, at, dash),
    ensures
        has_describe_suffix(s),
        describe_suffix_start(s) == at,
{
    let found = choose|a: int, d: int| describe_suffix_at(s, a, d);
    lemma_describe_suffix_unique(s, at, dash, found.0, found.1);
}

/// `s` holds no `/`.
pub open spec fn has_no_slash(s: Seq<char>) -> bool {
    forall|i: int| 0 <= i < s.len() ==> #[trigger] s[i] != '/'
}

/// Normalizing leaves `s` as it is: `s` holds no `/`, ends in no describe suffix
/// and carries no leading `v` that would be stripped.
pub open spec fn is_normal(s: Seq<char>) -> bool {
    has_no_slash(s) && !has_describe_suffix(s) && !has_version_mark(s)
}

/// What `normalize` returns holds no `/`.
pub proof fn lemma_normalized_has_no_slash(raw: Seq<char>)
    ensures
        has_no_slash(normalize_spec(raw)),
{
    lemma_segment_start(strip_refs_prefix(raw));
}

/// Text in normal form is a fixed point of `normalize`.
pub proof fn lemma_normal_is_fixed(s: Seq<char>)
    requires
        is_normal(s),
    ensures
        normalize_spec(s) == s,
{
    lemma_segment_start_is(s, 0);
    assert(s.skip(0) =~= s);
}

/// Normalizing twice gives what normalizing once gives, for every `raw` whose
/// normalized text ends in no further describe suffix and carries no further
/// leading `v`.
pub proof fn lemma_normalize_idempotent(raw: Seq<char>)
    requires
        !has_describe_suffix(normalize_spec(raw)),
        !has_version_mark(normalize_spec(raw)),
    ensures
        normalize_spec(normalize_spec(raw)) == normalize_spec(raw),
{
    lemma_normalized_has_no_slash(raw);
    lemma_normal_is_fixed(normalize_spec(raw));
}

/// Where the normalized text still ends in a describe suffix, or starts with a
/// `v` that would be stripped, normalizing again shortens it: normalizing twice
/// gives what normalizing once gives for no other input than those of
/// `lemma_normalize_idempotent`.
pub proof fn lemma_normalize_again_shortens(raw: Seq<char>)
    requires
        has_describe_suffix(normalize_spec(raw)) || has_version_mark(normalize_spec(raw)),
    ensures
        normalize_spec(normalize_spec(raw)).len() < normalize_spec(raw).len(),
        normalize_spec(normalize_spec(raw)) != normalize_spec(raw),
{
    let once = normalize_spec(raw);
    lemma_normalized_has_no_slash(raw);
    lemma_segment_start_is(once, 0);
    assert(once.skip(0) =~= once);
}

/// Whether `text` reads `refs/tags/` at its start.
fn starts_with_refs_tags(text: &Vec<char>) -> (b: bool)
    ensures
        b == refs_tags_prefix().is_prefix_of(text@),
{
    let prefix: Vec<char> = vec!['r', 'e', 'f', 's', '/', 't', 'a', 'g', 's', '/'];
    let found = stands_at(text, text.len(), 0, &prefix);
    proof {
        let head = text@.subrange(0, 10);
        assert(text@.subrange(0, text@.len() as int) =~= text@);
        if found {
            assert forall|j: int| 0 <= j < 10 implies head[j] == prefix@[j] by {
                assert(text@[0 + j] == prefix@[j]);
            }
        } else if prefix@.is_prefix_of(text@) {
            assert forall|j: int| 0 <= j < 10 implies #[trigger] text@[0 + j] == prefix@[j] by {}
        }
    }
    found
}

/// Where the last `/`-delimited segment of `text` from `from` on starts.
fn find_segment_start(text: &Vec<char>, from: usize) -> (start: usize)
    requires
        from <= text.len(),
    ensures
        from <= start <= text.len(),
        start - from == segment_start(text@.skip(from as int)),
{
    let mut start: usize = text.len();
    while start > from && text[start - 1] != '/'
        invariant
            from <= start <= text.len(),
            forall|i: int| start <= i < text.len() ==> text@[i] != '/',
        decreases start,
    {
        start = start - 1;
    }
    proof {
        lemma_segment_start_is(text@.skip(from as int), start - from);
    }
    start
}

/// Where the describe suffix of `text` from `from` on starts, if it has one. The
/// text is read from its end: the hash, `-g`, the count of commits, `-`.
fn find_describe_suffix(text: &Vec<char>, from: usize) -> (found: Option<usize>)
    requires
        from <= text.len(),
    ensures
        match found {
            Some(at) => from <= at < text.len() && has_describe_suffix(text@.skip(from as int))
                && describe_suffix_start(text@.skip(from as int)) == at - from,
            None => !has_describe_suffix(text@.skip(from as int)),
        },
{
    let ghost tail = text@.skip(from as int);
    let len = text.len();
    let hash = scan_run_back(text, from, len, CharClass::LowerHex);
    proof {
        lemma_run_start(text@, len as int, CharClass::LowerHex);
        assert forall|at: int, dash: int| describe_suffix_at(tail, at, dash) implies from + dash
            + 2 == hash by {
            if hash > from + dash + 2 {
                assert(is_lower_hex(tail[hash - 1 - from]));
            }
        }
    }
    if hash == len || hash - from < 4 || text[hash - 1] != 'g' || text[hash - 2] != '-' {
        return None;
    }
    let dash: usize = hash - 2;
    let count = scan_run_back(text, from, dash, CharClass::Digit);
    proof {
        lemma_run_start(text@, dash as int, CharClass::Digit);
        assert forall|at: int, d: int| describe_suffix_at(tail, at, d) implies from + at + 1
            == count by {
            if count > from + at + 1 {
                assert(is_digit(tail[count - 1 - from]));
            }
        }
    }
    if count == dash || count == from || text[count - 1] != '-' {
        return None;
    }
    let at: usize = count - 1;
    proof {
        assert forall|i: int| at - from < i < dash - from implies is_digit(#[trigger] tail[i]) by {}
        assert forall|i: int| dash - from + 1 < i < tail.len() implies is_lower_hex(
            #[trigger] tail[i],
        ) by {}
        lemma_describe_suffix_start_is(tail, at - from, dash - from);
    }
    Some(at)
}

/// Cleans a tag name, a ref or the output of `git describe` for the version
/// grammar. Never fails: a result that is no version is rejected by the grammar.
pub fn normalize(raw: &str) -> (cleaned: String)
    ensures
        cleaned@ == normalize_spec(raw@),
{
    let text = chars_of(raw);
    let after_prefix: usize = if starts_with_refs_tags(&text) { 10 } else { 0 };
    let ghost unprefixed = strip_refs_prefix(raw@);
    assert(unprefixed =~= text@.skip(after_prefix as int));
    let start = find_segment_start(&text, after_prefix);
    let ghost segment = last_segment(unprefixed);
    assert(segment =~= text@.skip(start as int));
    let found = find_describe_suffix(&text, start);
    let end = match found {
        Some(at) => at,
        None => text.len(),
    };
    let first: usize = if end - start > 1 && text[start] == 'v' { start + 1 } else { start };
    slice_of(raw, first, end)
}

} // verus!
