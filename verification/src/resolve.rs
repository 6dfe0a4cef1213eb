//! Resolving the latest available version for a channel out of two candidate
//! lists of tag names.

use crate::channel::{label_of, Channel};
use crate::normalize::{normalize, normalize_spec};
use crate::precedence::{
    lemma_order_total, lemma_order_transitive, lemma_same_version_congruent, precedes,
};
use crate::text::texts;
use crate::version::{parse_spec, Version, VersionView};
use vstd::prelude::*;
use vstd::string::StringExecFns;

verus! {

/// Which of the two candidate lists is worked on.
#[derive(Debug, Clone, Copy, PartialEq, Eq, Structural)]
pub enum Selection {
    UseA,
    UseB,
}

/// No candidate is a version that the channel admits.
#[derive(Debug)]
pub struct NoCandidateVersions {
    /// The channel that was resolved for.
    pub channel: Channel,
}

impl NoCandidateVersions {
    /// The error as a sentence.
    pub fn message(&self) -> (m: String)
        ensures
            m@ == "No valid versions found for channel "@ + label_of(self.channel),
    {
        String::from_str("No valid versions found for channel ").concat(self.channel.as_str())
    }
}

/// The list with more surviving candidates is worked on; a tie goes to the first.
pub open spec fn select_spec(count_a: nat, count_b: nat) -> Selection {
    if count_a >= count_b {
        Selection::UseA
    } else {
        Selection::UseB
    }
}

/// The version that the tag `tag` names: what its normalized text parses to, with
/// the tag itself kept as raw text.
pub open spec fn tag_version(tag: Seq<char>) -> Option<VersionView> {
    match parse_spec(normalize_spec(tag)) {
        Some(v) => Some(v.with_raw(tag)),
        None => None,
    }
}

/// `Master` admits every version; `Release` admits releases and date versions.
pub open spec fn admits(channel: Channel, v: VersionView) -> bool {
    channel == Channel::Master || v.is_release() || v.is_date_version()
}

/// The versions that `tags` name and `channel` admits, in the order of `tags`.
/// A tag that names no version is passed over.
pub open spec fn eligible(channel: Channel, tags: Seq<Seq<char>>) -> Seq<VersionView>
    decreases tags.len(),
{
    if tags.len() == 0 {
        Seq::empty()
    } else {
        let before = eligible(channel, tags.drop_last());
        match tag_version(tags.last()) {
            Some(v) => if admits(channel, v) {
                before.push(v)
            } else {
                before
            },
            None => before,
        }
    }
}

/// Where the latest of `versions` stands: the last position that holds a
/// highest version.
pub open spec fn latest_index(versions: Seq<VersionView>) -> int
    decreases versions.len(),
{
    if versions.len() <= 1 {
        0
    } else {
        let before = latest_index(versions.drop_last());
        if precedes(versions.last(), versions[before]) {
            before
        } else {
            versions.len() - 1
        }
    }
}

/// The working set: the eligible versions of the selected list.
pub open spec fn working_set(channel: Channel, a: Seq<Seq<char>>, b: Seq<Seq<char>>) -> Seq<
    VersionView,
> {
    match select_spec(eligible(channel, a).len(), eligible(channel, b).len()) {
        Selection::UseA => eligible(channel, a),
        Selection::UseB => eligible(channel, b),
    }
}

/// The latest version for `channel` among the candidates `a` and `b`; `None`
/// where the working set is empty.
pub open spec fn resolve_spec(channel: Channel, a: Seq<Seq<char>>, b: Seq<Seq<char>>) -> Option<
    VersionView,
> {
    let working = working_set(channel, a, b);
    if working.len() == 0 {
        None
    } else {
        Some(working[latest_index(working)])
    }
}

/// The views of a list of versions.
pub open spec fn views(versions: Seq<Version>) -> Seq<VersionView> {
    Seq::new(versions.len(), |i: int| versions[i]@)
}

/// The latest version is in the list, none in the list is higher, and all that
/// follow it are lower.
pub proof fn lemma_latest_index(versions: Seq<VersionView>)
    requires
        versions.len() > 0,
    ensures
        0 <= latest_index(versions) < versions.len(),
        forall|j: int|
            0 <= j < versions.len() ==> !precedes(
                versions[latest_index(versions)],
                #[trigger] versions[j],
            ),
        forall|j: int|
            latest_index(versions) < j < versions.len() ==> precedes(
                #[trigger] versions[j],
                versions[latest_index(versions)],
            ),
    decreases versions.len(),
{
    if versions.len() > 1 {
        let front = versions.drop_last();
        lemma_latest_index(front);
        let before = latest_index(front);
        let top = versions[latest_index(versions)];
        assert forall|j: int| 0 <= j < versions.len() implies !precedes(
            top,
            #[trigger] versions[j],
        ) by {
            if j < versions.len() - 1 {
                assert(versions[j] == front[j]);
                lemma_order_total(front[before], versions[j]);
                lemma_order_total(versions.last(), front[before]);
                lemma_same_version_congruent(front[before], versions.last(), versions[j]);
                lemma_same_version_congruent(versions[j], front[before], versions.last());
                if precedes(top, versions[j]) && top == versions.last() {
                    if precedes(versions[j], front[before]) {
                        lemma_order_transitive(versions.last(), versions[j], front[before]);
                    }
                }
            } else {
                lemma_order_total(top, versions[j]);
            }
        }
        assert forall|j: int| latest_index(versions) < j < versions.len() implies precedes(
            #[trigger] versions[j],
            top,
        ) by {
            if j < versions.len() - 1 {
                assert(versions[j] == front[j]);
            }
        }
    } else {
        lemma_order_total(versions[0], versions[0]);
    }
}

/// Every eligible version keeps one of the tags as its raw text, names what that
/// tag names, and is admitted by the channel.
pub proof fn lemma_eligible_from_tags(channel: Channel, tags: Seq<Seq<char>>)
    ensures
        forall|i: int|
            0 <= i < eligible(channel, tags).len() ==> {
                let v = #[trigger] eligible(channel, tags)[i];
                tags.contains(v.raw) && tag_version(v.raw) == Some(v) && admits(channel, v)
                    && v.well_formed()
            },
    decreases tags.len(),
{
    if tags.len() > 0 {
        let front = tags.drop_last();
        lemma_eligible_from_tags(channel, front);
        assert forall|i: int| 0 <= i < eligible(channel, tags).len() implies {
            let v = #[trigger] eligible(channel, tags)[i];
            tags.contains(v.raw) && tag_version(v.raw) == Some(v) && admits(channel, v)
                && v.well_formed()
        } by {
            let v = eligible(channel, tags)[i];
            if i < eligible(channel, front).len() {
                let k = choose|k: int| 0 <= k < front.len() && front[k] == v.raw;
                assert(tags[k] == v.raw);
            }
        }
    }
}

/// What is resolved carries the text of one of the candidates as its raw text,
/// never a rewritten one, and names the version that this candidate names.
pub proof fn lemma_resolved_from_candidates(
    channel: Channel,
    a: Seq<Seq<char>>,
    b: Seq<Seq<char>>,
)
    requires
        resolve_spec(channel, a, b) is Some,
    ensures
        a.contains(resolve_spec(channel, a, b)->0.raw) || b.contains(
            resolve_spec(channel, a, b)->0.raw,
        ),
        tag_version(resolve_spec(channel, a, b)->0.raw) == resolve_spec(channel, a, b),
        admits(channel, resolve_spec(channel, a, b)->0),
{
    let working = working_set(channel, a, b);
    lemma_latest_index(working);
    lemma_eligible_from_tags(channel, a);
    lemma_eligible_from_tags(channel, b);
}

/// Resolution fails exactly where neither list holds a tag that names a version
/// the channel admits.
pub proof fn lemma_resolve_fails_iff_none_eligible(
    channel: Channel,
    a: Seq<Seq<char>>,
    b: Seq<Seq<char>>,
)
    ensures
        resolve_spec(channel, a, b) is None <==> eligible(channel, a).len() == 0 && eligible(
            channel,
            b,
        ).len() == 0,
{
}

/// Whether the installation already stands at `latest`: the text of the
/// installed version is what the raw text of `latest` normalizes to.
pub fn is_installed(latest: &Version, installed: &str) -> (current: bool)
    ensures
        current == (normalize_spec(latest@.raw) == installed@),
{
    let cleaned = normalize(latest.raw());
    let installed = installed.to_owned();
    cleaned == installed
}

/// Picks the list to work on from the counts of surviving candidates.
pub fn select(count_a: usize, count_b: usize) -> (selection: Selection)
    ensures
        selection == select_spec(count_a as nat, count_b as nat),
{
    if count_a >= count_b {
        Selection::UseA
    } else {
        Selection::UseB
    }
}

/// Reads a tag name as a version: the tag is normalized and parsed, and kept
/// verbatim as the raw text. `None` where it names no version.
pub fn read_tag(tag: &str) -> (read: Option<Version>)
    ensures
        match read {
            Some(version) => tag_version(tag@) == Some(version@) && version@.well_formed(),
            None => tag_version(tag@) is None,
        },
{
    let cleaned = normalize(tag);
    match Version::parse(cleaned.as_str()) {
        Ok(version) => Some(version.with_raw(tag.to_owned())),
        Err(_) => None,
    }
}

/// Whether `channel` admits `version`.
pub fn channel_admits(channel: Channel, version: &Version) -> (admitted: bool)
    ensures
        admitted == admits(channel, version@),
{
    match channel {
        Channel::Release => version.is_release() || version.is_date_version(),
        Channel::Master => true,
    }
}

/// The versions that `tags` name and `channel` admits, in the order of `tags`.
pub fn collect_eligible(channel: Channel, tags: &Vec<String>) -> (versions: Vec<Version>)
    ensures
        views(versions@) == eligible(channel, texts(tags@)),
{
    let mut versions: Vec<Version> = Vec::new();
    let mut i: usize = 0;
    while i < tags.len()
        invariant
            i <= tags.len(),
            views(versions@) == eligible(channel, texts(tags@).take(i as int)),
        decreases tags.len() - i,
    {
        let ghost seen = texts(tags@).take(i + 1);
        assert(seen.drop_last() =~= texts(tags@).take(i as int));
        match read_tag(tags[i].as_str()) {
            Some(version) => {
                if channel_admits(channel, &version) {
                    versions.push(version);
                }
            },
            None => {},
        }
        i = i + 1;
    }
    assert(texts(tags@).take(tags.len() as int) =~= texts(tags@));
    versions
}

/// Takes the latest version out of `versions`: the last one that none exceeds.
/// `None` where there is no version.
pub fn take_latest(versions: Vec<Version>) -> (latest: Option<Version>)
    ensures
        match latest {
            Some(version) => versions.len() > 0 && version@ == views(versions@)[latest_index(
                views(versions@),
            )],
            None => versions.len() == 0,
        },
{
    if versions.len() == 0 {
        return None;
    }
    let mut versions = versions;
    let ghost all = views(versions@);
    let mut best: usize = 0;
    let mut i: usize = 1;
    while i < versions.len()
        invariant
            1 <= i <= versions.len(),
            all == views(versions@),
            best == latest_index(all.take(i as int)),
            best < i,
        decreases versions.len() - i,
    {
        assert(all.take(i + 1).drop_last() =~= all.take(i as int));
        if !versions[i].precedes(&versions[best]) {
            best = i;
        }
        i = i + 1;
    }
    assert(all.take(versions.len() as int) =~= all);
    Some(versions.swap_remove(best))
}

/// Resolves the latest version for `channel` from two lists of tag names that
/// were enumerated independently. Each list is reduced to the versions that its
/// tags name and the channel admits; the longer of the two reduced lists is
/// worked on, the first on a tie; its highest version is returned, the last of
/// them where several are equally high. The tag is kept verbatim as the raw
/// text of the result.
pub fn resolve(channel: Channel, candidates_a: &Vec<String>, candidates_b: &Vec<String>) -> (resolved:
    Result<Version, NoCandidateVersions>)
    ensures
        match resolved {
            Ok(version) => resolve_spec(channel, texts(candidates_a@), texts(candidates_b@))
                == Some(version@) && version@.well_formed() && (texts(candidates_a@).contains(
                version@.raw,
            ) || texts(candidates_b@).contains(version@.raw)),
            Err(error) => resolve_spec(channel, texts(candidates_a@), texts(candidates_b@))
                is None && error.channel == channel,
        },
{
    let from_a = collect_eligible(channel, candidates_a);
    let from_b = collect_eligible(channel, candidates_b);
    let working = match select(from_a.len(), from_b.len()) {
        Selection::UseA => from_a,
        Selection::UseB => from_b,
    };
    proof {
        if working.len() > 0 {
            lemma_resolved_from_candidates(channel, texts(candidates_a@), texts(candidates_b@));
            lemma_latest_index(views(working@));
            lemma_eligible_from_tags(channel, texts(candidates_a@));
            lemma_eligible_from_tags(channel, texts(candidates_b@));
        }
    }
    match take_latest(working) {
        Some(version) => Ok(version),
        None => Err(NoCandidateVersions { channel }),
    }
}

} // verus!
