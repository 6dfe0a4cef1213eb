//! The total order on versions: numbers first, then a release above every
//! pre-release of the same numbers, then pre-release parts by code point.

use crate::text::chars_of;
use crate::grammar::VersionText;
use crate::version::{lemma_parse_of_parts, parse_spec, Version, VersionView};
use std::cmp::Ordering;
use vstd::prelude::*;

verus! {

/// `a` comes before `b` in lexicographic order by code point; a proper prefix
/// comes before what it starts.
pub open spec fn text_less(a: Seq<char>, b: Seq<char>) -> bool
    decreases a.len(),
{
    if b.len() == 0 {
        false
    } else if a.len() == 0 {
        true
    } else if a[0] != b[0] {
        a[0] < b[0]
    } else {
        text_less(a.skip(1), b.skip(1))
    }
}

/// `a` is a lower version than `b`. Build metadata and raw text play no part.
pub open spec fn precedes(a: VersionView, b: VersionView) -> bool {
    if a.major != b.major {
        a.major < b.major
    } else if a.minor != b.minor {
        a.minor < b.minor
    } else if a.patch != b.patch {
        a.patch < b.patch
    } else {
        match (a.pre_release, b.pre_release) {
            (None, _) => false,
            (Some(_), None) => true,
            (Some(x), Some(y)) => text_less(x, y),
        }
    }
}

/// `a` and `b` are the same version: equal numbers and equal pre-release parts.
pub open spec fn same_version(a: VersionView, b: VersionView) -> bool {
    &&& a.major == b.major
    &&& a.minor == b.minor
    &&& a.patch == b.patch
    &&& a.pre_release == b.pre_release
}

/// Of two texts exactly one holds: the first is less, they are equal, or the
/// second is less.
pub proof fn lemma_text_order_total(a: Seq<char>, b: Seq<char>)
    ensures
        text_less(a, b) || a == b || text_less(b, a),
        !(text_less(a, b) && a == b),
        !(text_less(a, b) && text_less(b, a)),
        !(a == b && text_less(b, a)),
    decreases a.len(),
{
    if a.len() > 0 && b.len() > 0 && a[0] == b[0] {
        lemma_text_order_total(a.skip(1), b.skip(1));
        if a.skip(1) == b.skip(1) {
            assert(a =~= seq![a[0]] + a.skip(1));
        }
    }
}

/// The order on texts is transitive.
pub proof fn lemma_text_less_transitive(a: Seq<char>, b: Seq<char>, c: Seq<char>)
    requires
        text_less(a, b),
        text_less(b, c),
    ensures
        text_less(a, c),
    decreases a.len(),
{
    if a.len() > 0 && a[0] == b[0] && b[0] == c[0] {
        lemma_text_less_transitive(a.skip(1), b.skip(1), c.skip(1));
    }
}

/// The order is total: of two versions exactly one holds, the first is lower,
/// they are the same version, or the second is lower.
pub proof fn lemma_order_total(a: VersionView, b: VersionView)
    ensures
        precedes(a, b) || same_version(a, b) || precedes(b, a),
        !(precedes(a, b) && same_version(a, b)),
        !(precedes(a, b) && precedes(b, a)),
        !(same_version(a, b) && precedes(b, a)),
{
    if let (Some(x), Some(y)) = (a.pre_release, b.pre_release) {
        lemma_text_order_total(x, y);
    }
}

/// The order is transitive.
pub proof fn lemma_order_transitive(a: VersionView, b: VersionView, c: VersionView)
    requires
        precedes(a, b),
        precedes(b, c),
    ensures
        precedes(a, c),
{
    if let (Some(x), Some(y), Some(z)) = (a.pre_release, b.pre_release, c.pre_release) {
        if a.major == b.major && b.major == c.major && a.minor == b.minor && b.minor == c.minor
            && a.patch == b.patch && b.patch == c.patch {
            lemma_text_less_transitive(x, y, z);
        }
    }
}

/// Being the same version is an equivalence, and the order does not tell the
/// same version apart.
pub proof fn lemma_same_version_congruent(a: VersionView, b: VersionView, c: VersionView)
    ensures
        same_version(a, a),
        same_version(a, b) ==> same_version(b, a),
        same_version(a, b) && same_version(b, c) ==> same_version(a, c),
        same_version(a, b) ==> (precedes(a, c) <==> precedes(b, c)),
        same_version(a, b) ==> (precedes(c, a) <==> precedes(c, b)),
{
}

/// A release is higher than every pre-release of the same numbers: `X.Y.Z`
/// orders strictly above `X.Y.Z-anything`.
pub proof fn lemma_release_above_pre_release(release: VersionText, tagged: VersionText)
    requires
        release.well_formed(),
        release.in_range(),
        release.pre_release is None,
        release.build_metadata is None,
        tagged.well_formed(),
        tagged.major == release.major,
        tagged.minor == release.minor,
        tagged.patch == release.patch,
        tagged.pre_release is Some,
    ensures
        parse_spec(release.render()) matches Some(r) && parse_spec(tagged.render()) matches Some(t)
            && precedes(t, r) && !precedes(r, t) && !same_version(r, t),
{
    lemma_parse_of_parts(release);
    lemma_parse_of_parts(tagged);
}

/// How `a` stands to `b` in the order.
pub open spec fn order_of(a: VersionView, b: VersionView) -> Ordering {
    if precedes(a, b) {
        Ordering::Less
    } else if precedes(b, a) {
        Ordering::Greater
    } else {
        Ordering::Equal
    }
}

/// Whether `a` comes before `b` in lexicographic order by code point.
fn text_is_less(a: &Vec<char>, b: &Vec<char>) -> (less: bool)
    ensures
        less == text_less(a@, b@),
{
    let mut i: usize = 0;
    assert(a@.skip(0) =~= a@ && b@.skip(0) =~= b@);
    while i < a.len() && i < b.len() && a[i] == b[i]
        invariant
            i <= a.len(),
            i <= b.len(),
            text_less(a@, b@) == text_less(a@.skip(i as int), b@.skip(i as int)),
        decreases a.len() - i,
    {
        proof {
            assert(a@.skip(i as int).skip(1) =~= a@.skip(i + 1));
            assert(b@.skip(i as int).skip(1) =~= b@.skip(i + 1));
        }
        i = i + 1;
    }
    if i == b.len() {
        false
    } else if i == a.len() {
        true
    } else {
        a[i] < b[i]
    }
}

impl Version {
    /// Whether this is a lower version than `other`.
    pub fn precedes(&self, other: &Version) -> (lower: bool)
        ensures
            lower == precedes(self@, other@),
    {
        if self.major() != other.major() {
            self.major() < other.major()
        } else if self.minor() != other.minor() {
            self.minor() < other.minor()
        } else if self.patch() != other.patch() {
            self.patch() < other.patch()
        } else {
            match (self.pre_release(), other.pre_release()) {
                (None, _) => false,
                (Some(_), None) => true,
                (Some(x), Some(y)) => text_is_less(&chars_of(x), &chars_of(y)),
            }
        }
    }

    /// Compares two versions: `Less` where this one is lower, `Greater` where it
    /// is higher, `Equal` where both are the same version.
    pub fn cmp(&self, other: &Version) -> (o: Ordering)
        ensures
            o == order_of(self@, other@),
            (o == Ordering::Equal) == same_version(self@, other@),
    {
        proof {
            lemma_order_total(self@, other@);
        }
        if self.precedes(other) {
            Ordering::Less
        } else if other.precedes(self) {
            Ordering::Greater
        } else {
            Ordering::Equal
        }
    }
}

impl PartialEq for Version {
    /// Whether both are the same version; build metadata and raw text play no
    /// part.
    fn eq(&self, other: &Version) -> (same: bool) {
        proof {
            lemma_order_total(self@, other@);
        }
        !self.precedes(other) && !other.precedes(self)
    }
}

impl vstd::std_specs::cmp::PartialEqSpecImpl for Version {
    open spec fn obeys_eq_spec() -> bool {
        true
    }

    open spec fn eq_spec(&self, other: &Version) -> bool {
        same_version(self@, other@)
    }
}

impl Eq for Version {

}

impl PartialOrd for Version {
    /// How this version stands to `other`; never `None`.
    fn partial_cmp(&self, other: &Version) -> (o: Option<Ordering>) {
        Some(self.cmp(other))
    }
}

impl vstd::std_specs::cmp::PartialOrdSpecImpl for Version {
    open spec fn obeys_partial_cmp_spec() -> bool {
        true
    }

    open spec fn partial_cmp_spec(&self, other: &Version) -> Option<Ordering> {
        Some(order_of(self@, other@))
    }
}

} // verus!
