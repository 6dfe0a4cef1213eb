use holomotion_installer::version::Version;

fn fields(text: &str) -> (u32, u32, u32, Option<String>, Option<String>) {
    let version = Version::parse(text).unwrap();
    assert_eq!(version.raw(), text);
    (
        version.major(),
        version.minor(),
        version.patch(),
        version.pre_release().map(|part| part.to_string()),
        version.build_metadata().map(|part| part.to_string()),
    )
}

fn text(part: &str) -> Option<String> {
    Some(part.to_string())
}

#[test]
fn plain_triples_are_releases() {
    for input in ["0.0.0", "1.2.3", "10.20.30", "4.2.2", "007.08.9", "4294967295.4294967295.4294967295"] {
        let version = Version::parse(input).unwrap();
        assert!(version.is_release(), "{}", input);
        assert!(!version.is_date_version(), "{}", input);
        assert_eq!(version.pre_release(), None);
        assert_eq!(version.build_metadata(), None);
        assert_eq!(version.raw(), input);
    }
}

#[test]
fn date_tagged_triples_are_date_versions() {
    for input in ["1.2.3-20240901", "0.0.0-00000000", "4.2.2-99999999", "10.0.1-19700101"] {
        let version = Version::parse(input).unwrap();
        assert!(version.is_date_version(), "{}", input);
        assert!(!version.is_release(), "{}", input);
        assert_eq!(version.pre_release(), Some(&input[input.len() - 8..]));
        assert_eq!(version.build_metadata(), None);
    }
}

#[test]
fn numbers_are_read_in_base_ten() {
    assert_eq!(fields("1.2.3"), (1, 2, 3, None, None));
    assert_eq!(fields("01.002.0003"), (1, 2, 3, None, None));
    assert_eq!(fields("10.200.3000"), (10, 200, 3000, None, None));
    assert_eq!(fields("4294967295.0.0"), (4294967295, 0, 0, None, None));
    assert_eq!(fields("0.0.00000000004294967295"), (0, 0, 4294967295, None, None));
}

#[test]
fn numbers_beyond_32_bits_are_refused() {
    for input in [
        "4294967296.0.0",
        "0.4294967296.0",
        "0.0.4294967296",
        "99999999999999999999999999.0.0",
        "1.2.42949672950",
        "4294967296.0.0-20240901",
        "1.2.4294967300-beta",
    ] {
        let error = Version::parse(input).unwrap_err();
        assert_eq!(error.input, input);
    }
}

#[test]
fn pre_release_and_build_metadata_are_carried() {
    assert_eq!(fields("1.2.3-beta"), (1, 2, 3, text("beta"), None));
    assert_eq!(fields("1.2.3-beta.1"), (1, 2, 3, text("beta.1"), None));
    assert_eq!(fields("1.2.3-rc.1+meta-5"), (1, 2, 3, text("rc.1"), text("meta-5")));
    assert_eq!(fields("1.2.3+meta"), (1, 2, 3, None, text("meta")));
    assert_eq!(fields("1.2.3-a-b--c"), (1, 2, 3, text("a-b--c"), None));
    assert_eq!(fields("1.2.3--"), (1, 2, 3, text("-"), None));
    assert_eq!(fields("1.2.3-.+."), (1, 2, 3, text("."), text(".")));
    assert_eq!(fields("1.2.3-5-g1a2b3c4"), (1, 2, 3, text("5-g1a2b3c4"), None));
    assert_eq!(fields("1.2.3-20240901+build"), (1, 2, 3, text("20240901"), text("build")));
}

#[test]
fn a_date_stamp_is_exactly_eight_digits() {
    assert!(Version::parse("1.2.3-20240901").unwrap().is_date_version());
    assert!(Version::parse("1.2.3-20240901+build").unwrap().is_date_version());
    for input in ["1.2.3-2024090", "1.2.3-202409011", "1.2.3-2024090a", "1.2.3-2024.901", "1.2.3-beta", "1.2.3"] {
        assert!(!Version::parse(input).unwrap().is_date_version(), "{}", input);
    }
}

#[test]
fn a_release_has_no_pre_release_part() {
    assert!(Version::parse("1.2.3").unwrap().is_release());
    assert!(Version::parse("1.2.3+build").unwrap().is_release());
    assert!(!Version::parse("1.2.3-beta").unwrap().is_release());
    assert!(!Version::parse("1.2.3-20240901").unwrap().is_release());
}

#[test]
fn text_that_matches_neither_grammar_is_refused() {
    for input in [
        "", "1", "1.2", "1.2.", "1.2.3.", "1.2.3.4", "v1.2.3", " 1.2.3", "1.2.3 ", "1.2.3-",
        "1.2.3+", "1.2.3-+b", "1.2.3-a+", "1.2.3-a+b+c", "1.2.3+a+b", "1.2.3-a_b", "1..3",
        ".1.2", "1.2.3\n", "-1.2.3", "+1.2.3", "1.2.3-\u{3b2}", "a.b.c", "1.2.x", "1,2,3",
        "1.2.3+a-b c", "nightly", "1.2.3-\u{663}\u{663}\u{663}\u{663}\u{663}\u{663}\u{663}\u{663}",
        "\u{661}.2.3", "1.2.3/4",
    ] {
        let error = Version::parse(input).unwrap_err();
        assert_eq!(error.input, input);
    }
}

#[test]
fn a_malformed_version_says_what_was_wrong() {
    let error = Version::parse("bad-tag").unwrap_err();
    assert_eq!(error.input, "bad-tag");
    assert_eq!(error.message(), "Invalid version format: bad-tag");
    assert_eq!(Version::parse("").unwrap_err().message(), "Invalid version format: ");
}

#[test]
fn describe_output_is_normalized_before_it_is_parsed() {
    let version = Version::from_describe("refs/tags/v4.2.2-5-g1a2b3c4").unwrap();
    assert_eq!(version.raw(), "4.2.2");
    assert_eq!((version.major(), version.minor(), version.patch()), (4, 2, 2));
    let version = Version::from_describe("release/4.2.2-20240901").unwrap();
    assert_eq!(version.raw(), "4.2.2-20240901");
    assert!(version.is_date_version());
    let error = Version::from_describe("heads/nightly").unwrap_err();
    assert_eq!(error.input, "nightly");
    assert_eq!(error.message(), "Invalid version format: nightly");
}

#[test]
fn a_clone_is_the_same_version() {
    let version = Version::parse("1.2.3-rc.1+build").unwrap();
    let copy = version.clone();
    assert_eq!(copy.raw(), "1.2.3-rc.1+build");
    assert_eq!(copy.pre_release(), Some("rc.1"));
    assert_eq!(copy.build_metadata(), Some("build"));
    assert_eq!((copy.major(), copy.minor(), copy.patch()), (1, 2, 3));
    assert!(copy == version);
}
