use holomotion_installer::giturl::{
    accepts_git_url, bare_remote, choose_git_url, has_sound_parts, is_valid_git_url, remote_key,
    same_remote, UrlSource,
};

#[test]
fn addresses_of_the_known_forms_are_valid() {
    for url in [
        "https://github.com/user/repo.git",
        "https://cnb.cool/nts2025/repo",
        "http://host/path",
        "git@github.com:user/repo.git",
        "ssh://git@host/path/to/repo",
        "file:///tmp/repo",
        "file://x",
        "  https://host/repo  ",
        "\thttps://host/repo\n",
        "https://host:8080/repo",
        "git@host:a:b",
    ] {
        assert!(is_valid_git_url(url), "{}", url);
    }
}

#[test]
fn addresses_of_no_known_form_are_invalid() {
    for url in [
        "",
        "   ",
        "\n",
        "ftp://host/path",
        "https://host",
        "https://host/",
        "https:///path",
        "https://ho st/x",
        "http://host/x\ny",
        "git@host",
        "git@host:",
        "git@:path",
        "file://",
        "ssh://host/path",
        "git://host/path",
        "host/path",
        "xhttps://host/path",
        "HTTPS://host/path",
    ] {
        assert!(!is_valid_git_url(url), "{}", url);
    }
}

#[test]
fn addresses_whose_parts_do_not_fit_are_invalid() {
    for url in ["https://host/a://b", "git@host::x", "git@a:b://c", "ssh://git@host/x://y", "file://a://b"] {
        assert!(!is_valid_git_url(url), "{}", url);
        assert!(!has_sound_parts(url), "{}", url);
    }
}

#[test]
fn the_parts_of_an_address_are_checked_by_themselves() {
    for address in ["weird", "", "git://host/x", "ssh://", "https://host", "file://x", "http://a", "git@host:path", "git@h:p:q", "a:b"] {
        assert!(has_sound_parts(address), "{}", address);
    }
    for address in ["git:///x", "http:///", "file://", "xyz://a", "HTTP://a", "://a", "a://b://c", "git@host", "git@host:", "git@host::x", "git@"] {
        assert!(!has_sound_parts(address), "{}", address);
    }
}

#[test]
fn a_remote_is_keyed_without_trailing_slashes_and_git_suffixes() {
    assert_eq!(remote_key("https://host/repo"), "https://host/repo");
    assert_eq!(remote_key("  HTTPS://Host/Repo.git//  "), "https://host/repo");
    assert_eq!(remote_key("https://host/repo.git.git"), "https://host/repo");
    assert_eq!(remote_key("https://host/repo/.git"), "https://host/repo/");
    assert_eq!(remote_key("https://host/repo.GIT"), "https://host/repo.git");
    assert_eq!(remote_key("https://host/repo.git/x"), "https://host/repo.git/x");
    assert_eq!(remote_key(".git"), "");
    assert_eq!(remote_key("///"), "");
    assert_eq!(remote_key(""), "");
    assert_eq!(remote_key("git"), "git");
    assert_eq!(remote_key("\u{c4}\u{d6}.git"), "\u{e4}\u{f6}");
}

#[test]
fn addresses_with_the_same_key_name_the_same_remote() {
    assert!(same_remote("https://host/repo.git", "https://host/repo"));
    assert!(same_remote("https://host/repo/", "https://HOST/Repo.git\n"));
    assert!(same_remote("git@Host:User/Repo.git", "git@host:user/repo"));
    assert!(same_remote("", "  "));
    assert!(!same_remote("https://host/repo", "https://host/other"));
    assert!(!same_remote("https://host/repo", "http://host/repo"));
    assert!(!same_remote("https://host/repo.GIT", "https://host/repo"));
    assert!(!same_remote("https://host/repo/.git", "https://host/repo"));
}

#[test]
fn the_stored_address_has_priority() {
    let choice = choose_git_url(Some("  https://stored/repo \n"), Some("https://given/repo")).unwrap();
    assert_eq!(choice.url, "https://stored/repo");
    assert_eq!(choice.source, UrlSource::Stored);
    let choice = choose_git_url(Some("https://stored/repo"), None).unwrap();
    assert_eq!(choice.url, "https://stored/repo");
    assert_eq!(choice.source, UrlSource::Stored);
}

#[test]
fn a_blank_or_missing_stored_address_gives_way_to_the_provided_one() {
    for stored in [None, Some(""), Some("  \n\t")] {
        let choice = choose_git_url(stored, Some(" https://given/repo ")).unwrap();
        assert_eq!(choice.url, " https://given/repo ");
        assert_eq!(choice.source, UrlSource::Provided);
        assert!(choose_git_url(stored, None).is_err());
    }
    let choice = choose_git_url(None, Some("")).unwrap();
    assert_eq!(choice.url, "");
    assert_eq!(choice.source, UrlSource::Provided);
}

#[test]
fn an_address_is_accepted_for_its_form_and_its_parts() {
    assert!(accepts_git_url("https://host/repo", true));
    assert!(accepts_git_url("anything", true));
    assert!(!accepts_git_url("https://host/repo", false));
    assert!(!accepts_git_url("", true));
    assert!(!accepts_git_url("https://host/a://b", true));
    assert!(!accepts_git_url("git@host::x", true));
    assert!(!accepts_git_url("", false));
}

#[test]
fn slashes_and_git_suffixes_are_stripped_from_the_end() {
    assert_eq!(bare_remote("https://host/repo.git"), "https://host/repo");
    assert_eq!(bare_remote("https://host/repo.git//"), "https://host/repo");
    assert_eq!(bare_remote("https://host/repo.git.git"), "https://host/repo");
    assert_eq!(bare_remote("https://host/repo/.git/"), "https://host/repo/");
    assert_eq!(bare_remote("https://Host/Repo.GIT"), "https://Host/Repo.GIT");
    assert_eq!(bare_remote(" repo.git "), " repo.git ");
    assert_eq!(bare_remote(".git.git"), "");
    assert_eq!(bare_remote("git"), "git");
    assert_eq!(bare_remote("/"), "");
    assert_eq!(bare_remote(""), "");
}
