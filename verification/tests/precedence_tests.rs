use holomotion_installer::resolve::read_tag;
use holomotion_installer::version::Version;
use std::cmp::Ordering;

fn version(text: &str) -> Version {
    Version::parse(text).unwrap()
}

fn order(a: &str, b: &str) -> Ordering {
    version(a).cmp(&version(b))
}

#[test]
fn pre_release_of_a_higher_version_wins() {
    assert_eq!(order("2.0.0-beta", "1.9.0"), Ordering::Greater);
    assert_eq!(order("1.9.0", "2.0.0-beta"), Ordering::Less);
}

#[test]
fn numbers_decide_first() {
    assert_eq!(order("1.0.0", "2.0.0"), Ordering::Less);
    assert_eq!(order("2.0.0", "1.99.99"), Ordering::Greater);
    assert_eq!(order("1.9.0", "1.10.0"), Ordering::Less);
    assert_eq!(order("1.2.9", "1.2.10"), Ordering::Less);
    assert_eq!(order("1.2.3", "1.2.3"), Ordering::Equal);
    assert_eq!(order("01.2.3", "1.02.03"), Ordering::Equal);
    assert_eq!(order("1.2.4-alpha", "1.2.3"), Ordering::Greater);
    assert_eq!(order("1.3.0-20240901", "1.2.9"), Ordering::Greater);
}

#[test]
fn a_release_is_above_its_pre_releases() {
    for tagged in ["1.2.3-beta", "1.2.3-20240901", "1.2.3-0", "1.2.3-zzz", "1.2.3--", "1.2.3-rc.1+build"] {
        assert_eq!(order("1.2.3", tagged), Ordering::Greater, "{}", tagged);
        assert_eq!(order(tagged, "1.2.3"), Ordering::Less, "{}", tagged);
        assert!(version("1.2.3") > version(tagged));
        assert!(version("1.2.3") != version(tagged));
    }
}

#[test]
fn pre_release_parts_are_compared_as_text() {
    assert_eq!(order("1.0.0-alpha", "1.0.0-beta"), Ordering::Less);
    assert_eq!(order("1.0.0-alpha", "1.0.0-alpha.1"), Ordering::Less);
    assert_eq!(order("1.0.0-alpha.1", "1.0.0-alpha"), Ordering::Greater);
    assert_eq!(order("1.0.0-10", "1.0.0-9"), Ordering::Less);
    assert_eq!(order("1.0.0-B", "1.0.0-a"), Ordering::Less);
    assert_eq!(order("1.0.0-rc", "1.0.0-rc"), Ordering::Equal);
    assert_eq!(order("1.0.0-a-", "1.0.0-a."), Ordering::Less);
}

#[test]
fn date_versions_are_compared_as_text_too() {
    assert_eq!(order("1.0.0-20240101", "1.0.0-20240901"), Ordering::Less);
    assert_eq!(order("1.0.0-20240901", "1.0.0-20231231"), Ordering::Greater);
    assert_eq!(order("1.0.0-20240901", "1.0.0-alpha"), Ordering::Less);
    assert_eq!(order("1.0.0-20240901", "1.0.0-2024090"), Ordering::Greater);
    assert_eq!(order("1.0.0-20240901", "1.0.0-3"), Ordering::Less);
}

#[test]
fn build_metadata_and_raw_text_play_no_part() {
    assert_eq!(order("1.0.0+a", "1.0.0+b"), Ordering::Equal);
    assert_eq!(order("1.0.0+a", "1.0.0"), Ordering::Equal);
    assert_eq!(order("1.0.0-rc+a", "1.0.0-rc+b"), Ordering::Equal);
    assert!(version("1.0.0+a") == version("1.0.0+b"));
    assert!(read_tag("refs/tags/v1.0.0").unwrap() == version("1.0.0"));
    assert_eq!(read_tag("v1.0.0").unwrap().cmp(&version("1.0.0")), Ordering::Equal);
}

#[test]
fn the_operators_follow_the_order() {
    let low = version("1.0.0-beta");
    let high = version("1.0.0");
    assert!(low < high);
    assert!(low <= high);
    assert!(high > low);
    assert!(high >= low);
    assert!(low != high);
    assert!(!(low == high));
    assert!(high >= version("1.0.0+x"));
    assert!(high <= version("1.0.0+x"));
    assert!(low.precedes(&high));
    assert!(!high.precedes(&low));
    assert!(!high.precedes(&version("1.0.0+x")));
    assert_eq!(low.partial_cmp(&high), Some(Ordering::Less));
    assert_eq!(high.partial_cmp(&low), Some(Ordering::Greater));
    assert_eq!(high.partial_cmp(&version("1.0.0+x")), Some(Ordering::Equal));
}

fn sample() -> Vec<Version> {
    [
        "0.0.0", "0.0.1", "0.1.0", "1.0.0-20240101", "1.0.0-20240901", "1.0.0-alpha",
        "1.0.0-alpha.1", "1.0.0-beta", "1.0.0", "1.0.0+build", "1.0.1-0", "1.0.1", "1.10.0",
        "1.9.0", "2.0.0-beta", "2.0.0", "10.0.0", "9.99.99",
    ]
    .iter()
    .map(|text| version(text))
    .collect()
}

#[test]
fn exactly_one_of_less_equal_greater_holds() {
    let versions = sample();
    for a in &versions {
        for b in &versions {
            let holds = [a < b, a == b, a > b];
            assert_eq!(holds.iter().filter(|&&held| held).count(), 1, "{} {}", a.raw(), b.raw());
            match a.cmp(b) {
                Ordering::Less => assert!(a < b && b.cmp(a) == Ordering::Greater),
                Ordering::Equal => assert!(a == b && b.cmp(a) == Ordering::Equal),
                Ordering::Greater => assert!(a > b && b.cmp(a) == Ordering::Less),
            }
        }
    }
}

#[test]
fn the_order_is_transitive() {
    let versions = sample();
    for a in &versions {
        for b in &versions {
            for c in &versions {
                if a < b && b < c {
                    assert!(a < c, "{} {} {}", a.raw(), b.raw(), c.raw());
                }
                if a == b && b == c {
                    assert!(a == c);
                }
                if a == b {
                    assert_eq!(a.cmp(c), b.cmp(c));
                }
            }
        }
    }
}
