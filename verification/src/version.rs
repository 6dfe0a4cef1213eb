//! Parsed versions: the value type, its grammar-driven constructor and the
//! predicates that the channel rules are built on.

use crate::grammar::{
    core_ends, date_form, decimal_value, general_form, is_date_stamp, is_number,
    lemma_version_text_complete, lemma_version_text_sound, version_text, VersionText,
};
use crate::normalize::{normalize, normalize_spec};
use crate::text::{
    all_in_class, chars_of, in_class, lemma_run_end, scan_run, slice_of, str_text_of, text_of,
    CharClass,
};
use vstd::prelude::*;
use vstd::string::StringExecFns;

verus! {

/// What a version is, mathematically.
pub struct VersionView {
    pub major: nat,
    pub minor: nat,
    pub patch: nat,
    /// Absent for a release.
    pub pre_release: Option<Seq<char>>,
    /// Carried along; takes no part in ordering or equality.
    pub build_metadata: Option<Seq<char>>,
    /// The text that the version was read from, verbatim.
    pub raw: Seq<char>,
}

impl VersionText {
    /// The version that these parts denote, read from `raw`.
    pub open spec fn read(self, raw: Seq<char>) -> VersionView {
        VersionView {
            major: decimal_value(self.major),
            minor: decimal_value(self.minor),
            patch: decimal_value(self.patch),
            pre_release: self.pre_release,
            build_metadata: self.build_metadata,
            raw,
        }
    }
}

/// The version that `s` writes, if all of `s` matches one of the two grammars and
/// its three numbers fit in 32 bits.
pub open spec fn parse_spec(s: Seq<char>) -> Option<VersionView> {
    match version_text(s) {
        Some(parts) => if parts.in_range() {
            Some(parts.read(s))
        } else {
            None
        },
        None => None,
    }
}

impl VersionView {
    /// No pre-release part.
    pub open spec fn is_release(self) -> bool {
        self.pre_release is None
    }

    /// The pre-release part is exactly eight ASCII digits.
    pub open spec fn is_date_version(self) -> bool {
        self.pre_release matches Some(p) && is_date_stamp(p)
    }

    /// The same version under another raw text.
    pub open spec fn with_raw(self, raw: Seq<char>) -> VersionView {
        VersionView { raw, ..self }
    }

    /// The parsed fields are derived from `raw`: read from it as it stands, or
    /// after normalizing it.
    pub open spec fn well_formed(self) -> bool {
        ||| parse_spec(self.raw) == Some(self)
        ||| (parse_spec(normalize_spec(self.raw)) matches Some(v) && self == v.with_raw(self.raw))
    }
}

/// The text `major.minor.patch`.
pub open spec fn triple_text(major: Seq<char>, minor: Seq<char>, patch: Seq<char>) -> Seq<char> {
    major + seq!['.'] + minor + seq!['.'] + patch
}

/// Three numerals whose values fit in 32 bits.
pub open spec fn is_triple(major: Seq<char>, minor: Seq<char>, patch: Seq<char>) -> bool {
    &&& is_number(major) && decimal_value(major) <= u32::MAX
    &&& is_number(minor) && decimal_value(minor) <= u32::MAX
    &&& is_number(patch) && decimal_value(patch) <= u32::MAX
}

/// What well-formed parts write is read back as the version they denote, unless
/// a number is out of range.
pub proof fn lemma_parse_of_parts(parts: VersionText)
    requires
        parts.well_formed(),
    ensures
        parse_spec(parts.render()) == if parts.in_range() {
            Some(parts.read(parts.render()))
        } else {
            None
        },
{
    lemma_version_text_complete(parts);
}

/// Whatever parses is written by well-formed parts in range, and is the version
/// that they denote.
pub proof fn lemma_parsed_has_parts(s: Seq<char>)
    requires
        parse_spec(s) is Some,
    ensures
        exists|parts: VersionText|
            parts.well_formed() && parts.in_range() && #[trigger] parts.render() == s
                && parse_spec(s) == Some(parts.read(s)),
{
    lemma_version_text_sound(s);
}

/// Every `MAJOR.MINOR.PATCH` with no suffix parses as a release, and not as a
/// date version.
pub proof fn lemma_plain_triple_is_release(major: Seq<char>, minor: Seq<char>, patch: Seq<char>)
    requires
        is_triple(major, minor, patch),
    ensures
        parse_spec(triple_text(major, minor, patch)) matches Some(v) && v.is_release()
            && !v.is_date_version() && v.major == decimal_value(major) && v.minor
            == decimal_value(minor) && v.patch == decimal_value(patch),
{
    let parts = VersionText { major, minor, patch, pre_release: None, build_metadata: None };
    lemma_parse_of_parts(parts);
}

/// Every `MAJOR.MINOR.PATCH-DDDDDDDD` parses as a date version whose pre-release
/// part is the eight digits.
pub proof fn lemma_date_tagged_is_date_version(
    major: Seq<char>,
    minor: Seq<char>,
    patch: Seq<char>,
    stamp: Seq<char>,
)
    requires
        is_triple(major, minor, patch),
        is_date_stamp(stamp),
    ensures
        parse_spec(triple_text(major, minor, patch) + seq!['-'] + stamp) matches Some(v)
            && v.is_date_version() && !v.is_release() && v.pre_release == Some(stamp)
            && v.build_metadata is None,
        date_form(triple_text(major, minor, patch) + seq!['-'] + stamp) is Some,
{
    let parts = VersionText { major, minor, patch, pre_release: Some(stamp), build_metadata: None };
    assert(parts.render() =~= triple_text(major, minor, patch) + seq!['-'] + stamp);
    assert forall|i: int| 0 <= i < stamp.len() implies in_class(
        CharClass::Ident,
        #[trigger] stamp[i],
    ) by {}
    lemma_parse_of_parts(parts);
    lemma_version_text_complete(parts);
}

/// A parsed version. Built once from one text and never changed.
#[derive(Debug)]
pub struct Version {
    major: u32,
    minor: u32,
    patch: u32,
    pre_release: Option<String>,
    build_metadata: Option<String>,
    raw: String,
}

/// A copy of an optional string.
fn copy_text(s: &Option<String>) -> (t: Option<String>)
    ensures
        text_of(t) == text_of(*s),
{
    match s {
        Some(s) => Some(s.clone()),
        None => None,
    }
}

/// An optional string, borrowed.
fn borrow_text(s: &Option<String>) -> (t: Option<&str>)
    ensures
        str_text_of(t) == text_of(*s),
{
    match s {
        Some(s) => Some(s.as_str()),
        None => None,
    }
}

impl View for Version {
    type V = VersionView;

    closed spec fn view(&self) -> VersionView {
        VersionView {
            major: self.major as nat,
            minor: self.minor as nat,
            patch: self.patch as nat,
            pre_release: text_of(self.pre_release),
            build_metadata: text_of(self.build_metadata),
            raw: self.raw@,
        }
    }
}

/// The input matches neither version grammar.
#[derive(Debug)]
pub struct MalformedVersion {
    /// The offending text.
    pub input: String,
}

impl MalformedVersion {
    /// The error as a sentence.
    pub fn message(&self) -> (m: String)
        ensures
            m@ == "Invalid version format: "@ + self.input@,
    {
        String::from_str("Invalid version format: ").concat(self.input.as_str())
    }
}

/// Where the parts of a version lie within scanned text.
struct Spans {
    major_end: usize,
    minor_end: usize,
    patch_end: usize,
    pre_release: Option<(usize, usize)>,
    build_metadata: Option<(usize, usize)>,
}

/// The piece of `s` that `range` covers, if there is a range.
spec fn cut_range(s: Seq<char>, range: Option<(usize, usize)>) -> Option<Seq<char>> {
    match range {
        Some(r) => Some(s.subrange(r.0 as int, r.1 as int)),
        None => None,
    }
}

/// The range, if there is one, lies within a text of `len` characters.
spec fn range_within(range: Option<(usize, usize)>, len: nat) -> bool {
    range matches Some(r) ==> r.0 <= r.1 <= len
}

impl Spans {
    /// The parts of `s` that the spans cover.
    spec fn cut(self, s: Seq<char>) -> VersionText {
        VersionText {
            major: s.take(self.major_end as int),
            minor: s.subrange(self.major_end + 1, self.minor_end as int),
            patch: s.subrange(self.minor_end + 1, self.patch_end as int),
            pre_release: cut_range(s, self.pre_release),
            build_metadata: cut_range(s, self.build_metadata),
        }
    }

    /// The spans lie within `s`, and its three numbers end where they say.
    spec fn within(self, s: Seq<char>) -> bool {
        &&& core_ends(s) == Some(
            (self.major_end as int, self.minor_end as int, self.patch_end as int),
        )
        &&& self.patch_end <= s.len()
        &&& range_within(self.pre_release, s.len())
        &&& range_within(self.build_metadata, s.len())
    }
}

/// Scans `digits.digits.digits` at the start of `text`.
fn scan_core(text: &Vec<char>) -> (found: Option<(usize, usize, usize)>)
    ensures
        match found {
            Some(ends) => core_ends(text@) == Some((ends.0 as int, ends.1 as int, ends.2 as int))
                && ends.2 <= text.len(),
            None => core_ends(text@) is None,
        },
{
    let major_end = scan_run(text, 0, CharClass::Digit);
    if major_end == 0 || major_end >= text.len() || text[major_end] != '.' {
        return None;
    }
    let minor_end = scan_run(text, major_end + 1, CharClass::Digit);
    if minor_end == major_end + 1 || minor_end >= text.len() || text[minor_end] != '.' {
        return None;
    }
    let patch_end = scan_run(text, minor_end + 1, CharClass::Digit);
    if patch_end == minor_end + 1 {
        return None;
    }
    Some((major_end, minor_end, patch_end))
}

/// Whether `text` from `from` on holds characters of `class` only.
fn rest_is_run(text: &Vec<char>, from: usize, class: CharClass) -> (b: bool)
    requires
        from <= text.len(),
    ensures
        b == all_in_class(text@.skip(from as int), class),
{
    let end = scan_run(text, from, class);
    proof {
        lemma_run_end(text@, from as int, class);
        if end < text.len() {
            assert(text@.skip(from as int)[end - from] == text@[end as int]);
        }
    }
    end == text.len()
}

/// Tries the date-tagged form on `text`.
fn scan_date_form(text: &Vec<char>) -> (found: Option<Spans>)
    ensures
        match found {
            Some(spans) => spans.within(text@) && date_form(text@) == Some(spans.cut(text@)),
            None => date_form(text@) is None,
        },
{
    let ends = match scan_core(text) {
        Some(ends) => ends,
        None => { return None; },
    };
    let len = text.len();
    if ends.2 < len && text[ends.2] == '-' && len - ends.2 == 9 && rest_is_run(
        text,
        ends.2 + 1,
        CharClass::Digit,
    ) {
        let spans = Spans {
            major_end: ends.0,
            minor_end: ends.1,
            patch_end: ends.2,
            pre_release: Some((ends.2 + 1, len)),
            build_metadata: None,
        };
        Some(spans)
    } else {
        None
    }
}

/// Tries the general form on `text`.
fn scan_general_form(text: &Vec<char>) -> (found: Option<Spans>)
    ensures
        match found {
            Some(spans) => spans.within(text@) && general_form(text@) == Some(spans.cut(text@)),
            None => general_form(text@) is None,
        },
{
    let ends = match scan_core(text) {
        Some(ends) => ends,
        None => { return None; },
    };
    let len = text.len();
    let at = ends.2;
    let mut pre_release: Option<(usize, usize)> = None;
    let mut build_metadata: Option<(usize, usize)> = None;
    let mut plus = at;
    if at < len && text[at] == '-' {
        let pre_end = scan_run(text, at + 1, CharClass::Ident);
        if pre_end == at + 1 {
            return None;
        }
        pre_release = Some((at + 1, pre_end));
        plus = pre_end;
    }
    if plus < len {
        if text[plus] != '+' || plus + 1 == len || !rest_is_run(text, plus + 1, CharClass::Ident) {
            return None;
        }
        build_metadata = Some((plus + 1, len));
    }
    Some(Spans { major_end: ends.0, minor_end: ends.1, patch_end: ends.2, pre_release, build_metadata })
}

/// The value of a shorter numeral is no more than that of one it starts.
proof fn lemma_decimal_value_grows(t: Seq<char>, k: int)
    requires
        0 <= k <= t.len(),
    ensures
        decimal_value(t.take(k)) <= decimal_value(t),
    decreases t.len(),
{
    if k < t.len() {
        lemma_decimal_value_grows(t.drop_last(), k);
        assert(t.drop_last().take(k) =~= t.take(k));
    } else {
        assert(t.take(k) =~= t);
    }
}

/// Reads the digits of `text` from `from` up to `to` as a number; `None` where it
/// does not fit in 32 bits.
fn read_number(text: &Vec<char>, from: usize, to: usize) -> (value: Option<u32>)
    requires
        from <= to <= text.len(),
        all_in_class(text@.subrange(from as int, to as int), CharClass::Digit),
    ensures
        match value {
            Some(n) => n == decimal_value(text@.subrange(from as int, to as int)),
            None => decimal_value(text@.subrange(from as int, to as int)) > u32::MAX,
        },
{
    let ghost digits = text@.subrange(from as int, to as int);
    let mut value: u32 = 0;
    let mut i: usize = from;
    while i < to
        invariant
            from <= i <= to <= text.len(),
            digits == text@.subrange(from as int, to as int),
            all_in_class(digits, CharClass::Digit),
            value == decimal_value(digits.take(i - from)),
        decreases to - i,
    {
        let c = text[i];
        assert(in_class(CharClass::Digit, digits[i - from]));
        let digit: u32 = c as u32 - '0' as u32;
        proof {
            assert(digits.take(i - from + 1).drop_last() =~= digits.take(i - from));
        }
        if value > (u32::MAX - digit) / 10 {
            proof {
                lemma_decimal_value_grows(digits, i - from + 1);
            }
            return None;
        }
        value = value * 10 + digit;
        i = i + 1;
    }
    assert(digits.take(to - from) =~= digits);
    Some(value)
}

/// The characters that `range` covers, if any, as a string.
fn copy_range(s: &str, range: Option<(usize, usize)>) -> (t: Option<String>)
    requires
        range_within(range, s@.len()),
    ensures
        text_of(t) == cut_range(s@, range),
{
    match range {
        Some(r) => Some(slice_of(s, r.0, r.1)),
        None => None,
    }
}

impl Version {
    /// Reads `version_str` as a version. The date-tagged form is tried first, then
    /// the general form; the text is kept verbatim as `raw`. Fails where all of
    /// the text matches neither form or a number does not fit in 32 bits.
    pub fn parse(version_str: &str) -> (parsed: Result<Version, MalformedVersion>)
        ensures
            match parsed {
                Ok(version) => parse_spec(version_str@) == Some(version@)
                    && version@.well_formed(),
                Err(error) => parse_spec(version_str@) is None && error.input@ == version_str@,
            },
    {
        let text = chars_of(version_str);
        let found = match scan_date_form(&text) {
            Some(spans) => Some(spans),
            None => scan_general_form(&text),
        };
        let spans = match found {
            Some(spans) => spans,
            None => { return Err(MalformedVersion { input: version_str.to_owned() }); },
        };
        proof {
            lemma_run_end(text@, 0, CharClass::Digit);
            lemma_run_end(text@, spans.major_end + 1, CharClass::Digit);
            lemma_run_end(text@, spans.minor_end + 1, CharClass::Digit);
        }
        let major = read_number(&text, 0, spans.major_end);
        let minor = read_number(&text, spans.major_end + 1, spans.minor_end);
        let patch = read_number(&text, spans.minor_end + 1, spans.patch_end);
        match (major, minor, patch) {
            (Some(major), Some(minor), Some(patch)) => Ok(
                Version {
                    major,
                    minor,
                    patch,
                    pre_release: copy_range(version_str, spans.pre_release),
                    build_metadata: copy_range(version_str, spans.build_metadata),
                    raw: version_str.to_owned(),
                },
            ),
            _ => Err(MalformedVersion { input: version_str.to_owned() }),
        }
    }

    /// Reads the version that the output of `git describe` names: the output is
    /// normalized and parsed, and the normalized text is the raw text of the
    /// result.
    pub fn from_describe(describe: &str) -> (parsed: Result<Version, MalformedVersion>)
        ensures
            match parsed {
                Ok(version) => parse_spec(normalize_spec(describe@)) == Some(version@)
                    && version@.well_formed(),
                Err(error) => parse_spec(normalize_spec(describe@)) is None && error.input@
                    == normalize_spec(describe@),
            },
    {
        let cleaned = normalize(describe);
        Version::parse(cleaned.as_str())
    }

    /// The first number.
    pub fn major(&self) -> (n: u32)
        ensures
            n == self@.major,
    {
        self.major
    }

    /// The second number.
    pub fn minor(&self) -> (n: u32)
        ensures
            n == self@.minor,
    {
        self.minor
    }

    /// The third number.
    pub fn patch(&self) -> (n: u32)
        ensures
            n == self@.patch,
    {
        self.patch
    }

    /// The text that the version was read from, verbatim.
    pub fn raw(&self) -> (s: &str)
        ensures
            s@ == self@.raw,
    {
        self.raw.as_str()
    }

    /// The pre-release part, absent for a release.
    pub fn pre_release(&self) -> (p: Option<&str>)
        ensures
            str_text_of(p) == self@.pre_release,
    {
        borrow_text(&self.pre_release)
    }

    /// The build metadata, if the text carried any.
    pub fn build_metadata(&self) -> (b: Option<&str>)
        ensures
            str_text_of(b) == self@.build_metadata,
    {
        borrow_text(&self.build_metadata)
    }

    /// Whether the version has no pre-release part.
    pub fn is_release(&self) -> (b: bool)
        ensures
            b == self@.is_release(),
    {
        self.pre_release.is_none()
    }

    /// Whether the pre-release part is exactly eight ASCII digits, by
    /// convention a build date.
    pub fn is_date_version(&self) -> (b: bool)
        ensures
            b == self@.is_date_version(),
    {
        match &self.pre_release {
            Some(p) => {
                let text = chars_of(p.as_str());
                assert(text@.skip(0) =~= text@);
                text.len() == 8 && rest_is_run(&text, 0, CharClass::Digit)
            },
            None => false,
        }
    }

    /// The version that was parsed out of the normalized text of `tag`, with
    /// `tag` itself as its raw text.
    pub(crate) fn with_raw(self, tag: String) -> (v: Version)
        requires
            parse_spec(normalize_spec(tag@)) == Some(self@),
        ensures
            v@ == self@.with_raw(tag@),
            v@.well_formed(),
    {
        Version { raw: tag, ..self }
    }
}

impl Clone for Version {
    /// A copy that is the same version from the same text.
    fn clone(&self) -> (copy: Version)
        ensures
            copy@ == self@,
    {
        Version {
            major: self.major,
            minor: self.minor,
            patch: self.patch,
            pre_release: copy_text(&self.pre_release),
            build_metadata: copy_text(&self.build_metadata),
            raw: self.raw.clone(),
        }
    }
}

} // verus!
