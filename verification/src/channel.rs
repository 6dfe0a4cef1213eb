//! The two release channels: their labels, and the rule that infers the channel
//! of an installation from the shape of its version.

use crate::normalize::{normalize, normalize_spec};
use crate::text::{chars_of, trim, trim_spec};
use crate::version::{parse_spec, Version, VersionView};
use vstd::prelude::*;
use vstd::string::StringExecFns;

verus! {

/// One of the two release tracks an installation can follow.
#[derive(Debug, Clone, Copy, PartialEq, Eq, Structural)]
pub enum Channel {
    Master,
    Release,
}

/// A channel label other than `master` or `release`.
#[derive(Debug)]
pub struct InvalidChannelLabel {
    /// The label as it was given.
    pub label: String,
}

impl InvalidChannelLabel {
    /// The error as a sentence.
    pub fn message(&self) -> (m: String)
        ensures
            m@ == "Invalid channel: "@ + self.label@ + ". Available channels: master, release"@,
    {
        String::from_str("Invalid channel: ").concat(self.label.as_str()).concat(
            ". Available channels: master, release",
        )
    }
}

/// The lowercase label under which `channel` is persisted.
pub open spec fn label_of(channel: Channel) -> Seq<char> {
    match channel {
        Channel::Master => seq!['m', 'a', 's', 't', 'e', 'r'],
        Channel::Release => seq!['r', 'e', 'l', 'e', 'a', 's', 'e'],
    }
}

/// The code point of `c`, with `A` to `Z` mapped onto `a` to `z`.
pub open spec fn folded(c: char) -> int {
    if 'A' <= c && c <= 'Z' {
        c as int + 32
    } else {
        c as int
    }
}

/// `a` and `b` are equal but for the case of ASCII letters.
pub open spec fn same_ignoring_case(a: Seq<char>, b: Seq<char>) -> bool {
    &&& a.len() == b.len()
    &&& forall|i: int| 0 <= i < a.len() ==> folded(#[trigger] a[i]) == folded(b[i])
}

/// The channel that `label` names, whatever its case.
pub open spec fn channel_named(label: Seq<char>) -> Option<Channel> {
    if same_ignoring_case(label, label_of(Channel::Master)) {
        Some(Channel::Master)
    } else if same_ignoring_case(label, label_of(Channel::Release)) {
        Some(Channel::Release)
    } else {
        None
    }
}

/// The channel that an installation at version `v` is taken to follow: a plain
/// release is on `Master`, a date version or any other pre-release on `Release`.
pub open spec fn classify_spec(v: VersionView) -> Channel {
    if v.is_date_version() {
        Channel::Release
    } else if v.is_release() {
        Channel::Master
    } else {
        Channel::Release
    }
}

/// The channel inferred from the output of `git describe`: that of the version
/// it names, and `Release` where it names none.
pub open spec fn infer_spec(describe: Seq<char>) -> Channel {
    match parse_spec(normalize_spec(describe)) {
        Some(v) => classify_spec(v),
        None => Channel::Release,
    }
}

/// Every channel is named by its own label.
pub proof fn lemma_label_names_channel(channel: Channel)
    ensures
        channel_named(label_of(channel)) == Some(channel),
{
}

/// Only a version without pre-release part is classified as `Master`.
pub proof fn lemma_master_iff_release(v: VersionView)
    ensures
        classify_spec(v) == Channel::Master <==> v.is_release(),
{
}

/// The code point of `c`, with `A` to `Z` mapped onto `a` to `z`.
fn fold_char(c: char) -> (code: u32)
    ensures
        code == folded(c),
{
    if 'A' <= c && c <= 'Z' {
        c as u32 + 32
    } else {
        c as u32
    }
}

/// Whether `text` and `label` are equal but for the case of ASCII letters.
fn matches_ignoring_case(text: &Vec<char>, label: &Vec<char>) -> (same: bool)
    ensures
        same == same_ignoring_case(text@, label@),
{
    if text.len() != label.len() {
        return false;
    }
    let mut i: usize = 0;
    while i < text.len()
        invariant
            i <= text.len() == label.len(),
            forall|j: int| 0 <= j < i ==> folded(#[trigger] text@[j]) == folded(label@[j]),
        decreases text.len() - i,
    {
        if fold_char(text[i]) != fold_char(label[i]) {
            return false;
        }
        i = i + 1;
    }
    true
}

impl Channel {
    /// Reads a channel label, whatever its case.
    pub fn from_str(s: &str) -> (named: Result<Channel, InvalidChannelLabel>)
        ensures
            match named {
                Ok(channel) => channel_named(s@) == Some(channel),
                Err(error) => channel_named(s@) is None && error.label@ == s@,
            },
    {
        let text = chars_of(s);
        let master: Vec<char> = vec!['m', 'a', 's', 't', 'e', 'r'];
        let release: Vec<char> = vec!['r', 'e', 'l', 'e', 'a', 's', 'e'];
        if matches_ignoring_case(&text, &master) {
            Ok(Channel::Master)
        } else if matches_ignoring_case(&text, &release) {
            Ok(Channel::Release)
        } else {
            Err(InvalidChannelLabel { label: s.to_owned() })
        }
    }

    /// The lowercase label under which the channel is persisted.
    pub fn as_str(&self) -> (label: &'static str)
        ensures
            label@ == label_of(*self),
    {
        proof {
            reveal_strlit("master");
            reveal_strlit("release");
        }
        match self {
            Channel::Master => "master",
            Channel::Release => "release",
        }
    }
}

/// Reads the channel out of what the marker file of an installation holds: a
/// label, whatever its case, with white space around it. The error carries the
/// label without that white space.
pub fn read_marker(content: &str) -> (named: Result<Channel, InvalidChannelLabel>)
    ensures
        match named {
            Ok(channel) => channel_named(trim_spec(content@)) == Some(channel),
            Err(error) => channel_named(trim_spec(content@)) is None && error.label@
                == trim_spec(content@),
        },
{
    let label = trim(content);
    Channel::from_str(label.as_str())
}

/// The channel that an installation at `version` is taken to follow.
pub fn classify(version: &Version) -> (channel: Channel)
    ensures
        channel == classify_spec(version@),
{
    if version.is_date_version() {
        Channel::Release
    } else if version.is_release() {
        Channel::Master
    } else {
        Channel::Release
    }
}

/// Infers the channel from the output of `git describe`.
pub fn infer_channel(describe: &str) -> (channel: Channel)
    ensures
        channel == infer_spec(describe@),
{
    let cleaned = normalize(describe);
    match Version::parse(cleaned.as_str()) {
        Ok(version) => classify(&version),
        Err(_) => Channel::Release,
    }
}

} // verus!
