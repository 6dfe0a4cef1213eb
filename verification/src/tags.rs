//! Reading tag names out of the text that Git prints: the list of local tags and
//! the ref lines of `git ls-remote`.

use crate::channel::Channel;
use crate::normalize::refs_tags_prefix;
use crate::resolve::{resolve, resolve_spec, NoCandidateVersions};
use crate::text::{
    chars_of, find_before, first_occurrence, lemma_first_occurrence_shift, run_end, scan_run,
    slice_of, text_of, texts, CharClass,
};
use crate::version::Version;
use vstd::prelude::*;

verus! {

/// `line` without one carriage return at its end.
pub open spec fn without_cr(line: Seq<char>) -> Seq<char> {
    if line.len() > 0 && line.last() == '\r' {
        line.drop_last()
    } else {
        line
    }
}

/// The lines of `s` from `from` on. A line ends at a line feed, or at a carriage
/// return and a line feed; neither belongs to the line. The last line needs no
/// line ending, and then keeps a carriage return at its end.
pub open spec fn lines_from(s: Seq<char>, from: int) -> Seq<Seq<char>>
    decreases s.len() - from,
{
    if 0 <= from < s.len() {
        let end = run_end(s, from, CharClass::LineText);
        if from <= end < s.len() {
            seq![without_cr(s.subrange(from, end))] + lines_from(s, end + 1)
        } else {
            seq![s.skip(from)]
        }
    } else {
        Seq::empty()
    }
}

/// The lines of `s`.
pub open spec fn lines_spec(s: Seq<char>) -> Seq<Seq<char>> {
    lines_from(s, 0)
}

/// The tag that a ref line names: what stands between the first `refs/tags/` of
/// the line and the next one, or the end of the line. `None` for a line without
/// `refs/tags/`.
pub open spec fn tag_of_ref_line(line: Seq<char>) -> Option<Seq<char>> {
    let marker = refs_tags_prefix();
    match first_occurrence(line, marker, 0) {
        Some(at) => match first_occurrence(line, marker, at + marker.len()) {
            Some(next) => Some(line.subrange(at + marker.len(), next)),
            None => Some(line.skip(at + marker.len())),
        },
        None => None,
    }
}

/// The tags that the ref lines `lines` name, in their order.
pub open spec fn tags_of_ref_lines(lines: Seq<Seq<char>>) -> Seq<Seq<char>>
    decreases lines.len(),
{
    if lines.len() == 0 {
        Seq::empty()
    } else {
        let before = tags_of_ref_lines(lines.drop_last());
        match tag_of_ref_line(lines.last()) {
            Some(tag) => before.push(tag),
            None => before,
        }
    }
}

/// The tags that the output of `git ls-remote --tags` names.
pub open spec fn remote_tags_spec(output: Seq<char>) -> Seq<Seq<char>> {
    tags_of_ref_lines(lines_spec(output))
}

/// How many lines of a tag list are read.
pub const LOCAL_TAG_LIMIT: usize = 100;

/// The tags that the output of `git tag -l` names: its first lines, up to the
/// limit.
pub open spec fn local_tags_spec(output: Seq<char>) -> Seq<Seq<char>> {
    let lines = lines_spec(output);
    if lines.len() <= LOCAL_TAG_LIMIT {
        lines
    } else {
        lines.take(LOCAL_TAG_LIMIT as int)
    }
}

/// The pieces of `text` that `ranges` cover.
spec fn cut(text: Seq<char>, ranges: Seq<(usize, usize)>) -> Seq<Seq<char>> {
    Seq::new(ranges.len(), |i: int| text.subrange(ranges[i].0 as int, ranges[i].1 as int))
}

/// Every range lies within a text of `len` characters.
spec fn in_bounds(ranges: Seq<(usize, usize)>, len: nat) -> bool {
    forall|i: int| 0 <= i < ranges.len() ==> (#[trigger] ranges[i]).0 <= ranges[i].1 <= len
}

/// Where the lines of `text` lie.
fn line_ranges(text: &Vec<char>) -> (ranges: Vec<(usize, usize)>)
    ensures
        in_bounds(ranges@, text@.len()),
        cut(text@, ranges@) == lines_spec(text@),
{
    let mut ranges: Vec<(usize, usize)> = Vec::new();
    let mut from: usize = 0;
    while from < text.len()
        invariant
            from <= text.len(),
            in_bounds(ranges@, text@.len()),
            cut(text@, ranges@) + lines_from(text@, from as int) == lines_spec(text@),
        decreases text.len() - from,
    {
        let end = scan_run(text, from, CharClass::LineText);
        if end < text.len() {
            let stop = if end > from && text[end - 1] == '\r' {
                end - 1
            } else {
                end
            };
            ranges.push((from, stop));
            proof {
                let line = text@.subrange(from as int, end as int);
                assert(without_cr(line) =~= text@.subrange(from as int, stop as int));
            }
            from = end + 1;
        } else {
            ranges.push((from, end));
            from = end;
        }
    }
    ranges
}

/// The tag that the ref line of `text` from `lo` up to `hi` names, if any, cut out
/// of `output`.
fn tag_in_line(output: &str, text: &Vec<char>, lo: usize, hi: usize, marker: &Vec<char>) -> (tag:
    Option<String>)
    requires
        text@ == output@,
        lo <= hi <= text.len(),
        marker@ == refs_tags_prefix(),
    ensures
        text_of(tag) == tag_of_ref_line(text@.subrange(lo as int, hi as int)),
{
    let ghost head = text@.subrange(0, hi as int);
    let ghost line = text@.subrange(lo as int, hi as int);
    assert(line =~= head.skip(lo as int));
    proof {
        lemma_first_occurrence_shift(head, marker@, lo as int, 0);
    }
    match find_before(text, hi, lo, marker) {
        Some(at) => {
            let start = at + marker.len();
            proof {
                lemma_first_occurrence_shift(head, marker@, lo as int, start - lo);
            }
            let stop = match find_before(text, hi, start, marker) {
                Some(next) => next,
                None => hi,
            };
            Some(slice_of(output, start, stop))
        },
        None => None,
    }
}

/// The tags that the output of `git ls-remote --tags` names: of each line, what
/// follows its `refs/tags/`. Lines without `refs/tags/` are passed over.
pub fn remote_tags(output: &str) -> (tags: Vec<String>)
    ensures
        texts(tags@) == remote_tags_spec(output@),
{
    let text = chars_of(output);
    let ranges = line_ranges(&text);
    let marker: Vec<char> = vec!['r', 'e', 'f', 's', '/', 't', 'a', 'g', 's', '/'];
    let ghost lines = cut(text@, ranges@);
    let mut tags: Vec<String> = Vec::new();
    let mut i: usize = 0;
    while i < ranges.len()
        invariant
            i <= ranges.len(),
            text@ == output@,
            marker@ == refs_tags_prefix(),
            in_bounds(ranges@, text@.len()),
            lines == cut(text@, ranges@),
            texts(tags@) == tags_of_ref_lines(lines.take(i as int)),
        decreases ranges.len() - i,
    {
        assert(lines.take(i + 1).drop_last() =~= lines.take(i as int));
        let range = ranges[i];
        match tag_in_line(output, &text, range.0, range.1, &marker) {
            Some(tag) => {
                tags.push(tag);
            },
            None => {},
        }
        i = i + 1;
    }
    assert(lines.take(ranges.len() as int) =~= lines);
    tags
}

/// The tags that the output of `git tag -l` names: one to a line, and no more
/// than the limit.
pub fn local_tags(output: &str) -> (tags: Vec<String>)
    ensures
        texts(tags@) == local_tags_spec(output@),
{
    let text = chars_of(output);
    let ranges = line_ranges(&text);
    let ghost lines = cut(text@, ranges@);
    let count = if ranges.len() <= LOCAL_TAG_LIMIT {
        ranges.len()
    } else {
        LOCAL_TAG_LIMIT
    };
    let mut tags: Vec<String> = Vec::new();
    let mut i: usize = 0;
    while i < count
        invariant
            i <= count <= ranges.len(),
            text@ == output@,
            in_bounds(ranges@, text@.len()),
            lines == cut(text@, ranges@),
            texts(tags@) == lines.take(i as int),
        decreases count - i,
    {
        let ghost before = texts(tags@);
        let range = ranges[i];
        let tag = slice_of(output, range.0, range.1);
        tags.push(tag);
        assert(texts(tags@) =~= before.push(lines[i as int]));
        i = i + 1;
    }
    tags
}

/// Resolves the latest version for `channel` from what Git printed: the ref
/// lines of the remote and the list of local tags. The remote tags are the first
/// candidate list, the local tags the second.
pub fn latest_version(channel: Channel, remote_output: &str, local_output: &str) -> (resolved:
    Result<Version, NoCandidateVersions>)
    ensures
        match resolved {
            Ok(version) => resolve_spec(
                channel,
                remote_tags_spec(remote_output@),
                local_tags_spec(local_output@),
            ) == Some(version@) && version@.well_formed(),
            Err(error) => resolve_spec(
                channel,
                remote_tags_spec(remote_output@),
                local_tags_spec(local_output@),
            ) is None && error.channel == channel,
        },
{
    let remote = remote_tags(remote_output);
    let local = local_tags(local_output);
    resolve(channel, &remote, &local)
}

} // verus!
