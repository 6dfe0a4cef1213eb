//! The two version grammars: the date-tagged form `MAJOR.MINOR.PATCH-DDDDDDDD` and
//! the general form `MAJOR.MINOR.PATCH[-pre-release][+build-metadata]`.

use crate::text::{all_in_class, in_class, lemma_run_end, lemma_run_end_is, run_end, CharClass};
use vstd::prelude::*;

verus! {

/// The text of a version, part by part, before its numbers are read.
pub struct VersionText {
    pub major: Seq<char>,
    pub minor: Seq<char>,
    pub patch: Seq<char>,
    pub pre_release: Option<Seq<char>>,
    pub build_metadata: Option<Seq<char>>,
}

/// One or more digits.
pub open spec fn is_number(t: Seq<char>) -> bool {
    t.len() > 0 && all_in_class(t, CharClass::Digit)
}

/// One or more ASCII letters, digits, `-` and `.`.
pub open spec fn is_identifier(t: Seq<char>) -> bool {
    t.len() > 0 && all_in_class(t, CharClass::Ident)
}

/// Exactly eight digits.
pub open spec fn is_date_stamp(t: Seq<char>) -> bool {
    t.len() == 8 && all_in_class(t, CharClass::Digit)
}

/// The number that the digit `c` stands for.
pub open spec fn digit_value(c: char) -> nat {
    (c as int - '0' as int) as nat
}

/// The number that the digits `t` write in base ten.
pub open spec fn decimal_value(t: Seq<char>) -> nat
    decreases t.len(),
{
    if t.len() == 0 {
        0
    } else {
        decimal_value(t.drop_last()) * 10 + digit_value(t.last())
    }
}

/// `mark` and `t`, or nothing where there is no `t`.
pub open spec fn with_mark(mark: char, t: Option<Seq<char>>) -> Seq<char> {
    match t {
        Some(t) => seq![mark] + t,
        None => Seq::empty(),
    }
}

impl VersionText {
    /// The parts are numbers and identifiers.
    pub open spec fn well_formed(self) -> bool {
        &&& is_number(self.major)
        &&& is_number(self.minor)
        &&& is_number(self.patch)
        &&& self.pre_release matches Some(p) ==> is_identifier(p)
        &&& self.build_metadata matches Some(b) ==> is_identifier(b)
    }

    /// The pre-release part is a date stamp and there is no build metadata.
    pub open spec fn is_date_tagged(self) -> bool {
        &&& self.pre_release matches Some(p) && is_date_stamp(p)
        &&& self.build_metadata is None
    }

    /// The parts written out: `major.minor.patch`, then `-` and the pre-release
    /// part, then `+` and the build metadata.
    pub open spec fn render(self) -> Seq<char> {
        self.major + seq!['.'] + self.minor + seq!['.'] + self.patch + with_mark(
            '-',
            self.pre_release,
        ) + with_mark('+', self.build_metadata)
    }

    /// The three numbers fit in 32 bits.
    pub open spec fn in_range(self) -> bool {
        &&& decimal_value(self.major) <= u32::MAX
        &&& decimal_value(self.minor) <= u32::MAX
        &&& decimal_value(self.patch) <= u32::MAX
    }
}

/// Where the three numbers of `s` end, if `s` starts with `digits.digits.digits`.
pub open spec fn core_ends(s: Seq<char>) -> Option<(int, int, int)> {
    let major_end = run_end(s, 0, CharClass::Digit);
    let minor_end = run_end(s, major_end + 1, CharClass::Digit);
    let patch_end = run_end(s, minor_end + 1, CharClass::Digit);
    if 0 < major_end < s.len() && s[major_end] == '.' && major_end + 1 < minor_end < s.len()
        && s[minor_end] == '.' && minor_end + 1 < patch_end {
        Some((major_end, minor_end, patch_end))
    } else {
        None
    }
}

/// What follows the three numbers in the general form, from `at` on: nothing, a
/// pre-release part, build metadata, or both in this order.
pub open spec fn general_tail(s: Seq<char>, at: int) -> Option<
    (Option<Seq<char>>, Option<Seq<char>>),
> {
    if at == s.len() {
        Some((None, None))
    } else if s[at] == '-' {
        let pre_end = run_end(s, at + 1, CharClass::Ident);
        if pre_end == at + 1 {
            None
        } else if pre_end == s.len() {
            Some((Some(s.subrange(at + 1, pre_end)), None))
        } else if s[pre_end] == '+' && is_identifier(s.skip(pre_end + 1)) {
            Some((Some(s.subrange(at + 1, pre_end)), Some(s.skip(pre_end + 1))))
        } else {
            None
        }
    } else if s[at] == '+' && is_identifier(s.skip(at + 1)) {
        Some((None, Some(s.skip(at + 1))))
    } else {
        None
    }
}

/// The three numbers of `s`, given where they end.
pub open spec fn core_of(s: Seq<char>, ends: (int, int, int)) -> VersionText {
    VersionText {
        major: s.take(ends.0),
        minor: s.subrange(ends.0 + 1, ends.1),
        patch: s.subrange(ends.1 + 1, ends.2),
        pre_release: None,
        build_metadata: None,
    }
}

/// `s` read in the date-tagged form: three numbers, `-`, and a date stamp.
pub open spec fn date_form(s: Seq<char>) -> Option<VersionText> {
    match core_ends(s) {
        Some(ends) => if ends.2 < s.len() && s[ends.2] == '-' && is_date_stamp(s.skip(ends.2 + 1)) {
            Some(VersionText { pre_release: Some(s.skip(ends.2 + 1)), ..core_of(s, ends) })
        } else {
            None
        },
        None => None,
    }
}

/// `s` read in the general form: three numbers, then an optional pre-release part
/// and optional build metadata.
pub open spec fn general_form(s: Seq<char>) -> Option<VersionText> {
    match core_ends(s) {
        Some(ends) => match general_tail(s, ends.2) {
            Some(tail) => Some(
                VersionText { pre_release: tail.0, build_metadata: tail.1, ..core_of(s, ends) },
            ),
            None => None,
        },
        None => None,
    }
}

/// `s` read as a version: the date-tagged form is tried first, then the general
/// form. `None` where all of `s` matches neither.
pub open spec fn version_text(s: Seq<char>) -> Option<VersionText> {
    match date_form(s) {
        Some(parts) => Some(parts),
        None => general_form(s),
    }
}

/// What the grammar reads out of a text is well formed and writes that text.
pub proof fn lemma_version_text_sound(s: Seq<char>)
    requires
        version_text(s) is Some,
    ensures
        version_text(s)->0.well_formed(),
        version_text(s)->0.render() == s,
        date_form(s) is Some ==> version_text(s)->0.is_date_tagged(),
{
    let ends = core_ends(s)->0;
    lemma_run_end(s, 0, CharClass::Digit);
    lemma_run_end(s, ends.0 + 1, CharClass::Digit);
    lemma_run_end(s, ends.1 + 1, CharClass::Digit);
    if date_form(s) is None && ends.2 < s.len() && s[ends.2] == '-' {
        lemma_run_end(s, ends.2 + 1, CharClass::Ident);
    }
}

/// Every well-formed version text is read back part by part from what it writes:
/// the grammar is unambiguous.
pub proof fn lemma_version_text_complete(parts: VersionText)
    requires
        parts.well_formed(),
    ensures
        version_text(parts.render()) == Some(parts),
        general_form(parts.render()) == Some(parts),
        parts.is_date_tagged() <==> date_form(parts.render()) is Some,
{
    let s = parts.render();
    let major_end = parts.major.len() as int;
    let minor_end = major_end + 1 + parts.minor.len();
    let patch_end = minor_end + 1 + parts.patch.len();
    let pre = with_mark('-', parts.pre_release);
    let build = with_mark('+', parts.build_metadata);
    let pre_end = patch_end + pre.len();
    assert forall|i: int| 0 <= i < major_end implies s[i] == parts.major[i] by {}
    assert forall|i: int| major_end < i < minor_end implies s[i] == parts.minor[i - major_end - 1] by {}
    assert forall|i: int| minor_end < i < patch_end implies s[i] == parts.patch[i - minor_end - 1] by {}
    assert forall|i: int| patch_end <= i < pre_end implies s[i] == pre[i - patch_end] by {}
    assert forall|i: int| pre_end <= i < s.len() implies s[i] == build[i - pre_end] by {}
    lemma_run_end_is(s, 0, major_end, CharClass::Digit);
    lemma_run_end_is(s, major_end + 1, minor_end, CharClass::Digit);
    lemma_run_end_is(s, minor_end + 1, patch_end, CharClass::Digit);
    assert(s.take(major_end) =~= parts.major);
    assert(s.subrange(major_end + 1, minor_end) =~= parts.minor);
    assert(s.subrange(minor_end + 1, patch_end) =~= parts.patch);
    let ends = (major_end, minor_end, patch_end);
    match parts.pre_release {
        Some(p) => {
            assert forall|i: int| patch_end < i < pre_end implies s[i] == p[i - patch_end - 1] by {}
            lemma_run_end_is(s, patch_end + 1, pre_end, CharClass::Ident);
            assert(s.subrange(patch_end + 1, pre_end) =~= p);
            match parts.build_metadata {
                Some(b) => {
                    assert(s.skip(pre_end + 1) =~= b);
                    assert(s.skip(patch_end + 1)[pre_end - patch_end - 1] == '+');
                },
                None => {},
            }
        },
        None => {
            match parts.build_metadata {
                Some(b) => {
                    assert(s.skip(patch_end + 1) =~= b);
                },
                None => {},
            }
        },
    }
}

/// The two forms never disagree: what the date-tagged form reads, the general
/// form reads as well, part by part. Trying the date-tagged form first makes its
/// priority explicit, and changes no result.
pub proof fn lemma_date_form_within_general(s: Seq<char>)
    requires
        date_form(s) is Some,
    ensures
        general_form(s) == date_form(s),
{
    lemma_version_text_sound(s);
    let parts = date_form(s)->0;
    let stamp = parts.pre_release->0;
    assert forall|i: int| 0 <= i < stamp.len() implies in_class(
        CharClass::Ident,
        #[trigger] stamp[i],
    ) by {}
    lemma_version_text_complete(parts);
}

} // verus!
