use holomotion_installer::channel::Channel;
use holomotion_installer::tags::{latest_version, local_tags, remote_tags, LOCAL_TAG_LIMIT};

fn names(tags: &[&str]) -> Vec<String> {
    tags.iter().map(|tag| tag.to_string()).collect()
}

#[test]
fn remote_tags_follow_the_ref_marker() {
    let output = "1a2b3c\trefs/tags/v1.0.0\n4d5e6f\trefs/tags/v1.1.0\n";
    assert_eq!(remote_tags(output), names(&["v1.0.0", "v1.1.0"]));
    let output = "1a2b3c\trefs/tags/release/4.2.2-20240901";
    assert_eq!(remote_tags(output), names(&["release/4.2.2-20240901"]));
}

#[test]
fn lines_without_the_ref_marker_are_passed_over() {
    let output = "1a2b3c\trefs/heads/main\n\n4d5e6f\trefs/tags/v1.1.0\nrefs/tag/v2\nwarning: something\n";
    assert_eq!(remote_tags(output), names(&["v1.1.0"]));
    assert_eq!(remote_tags(""), Vec::<String>::new());
    assert_eq!(remote_tags("\n\n"), Vec::<String>::new());
    assert_eq!(remote_tags("refs/tags"), Vec::<String>::new());
}

#[test]
fn a_remote_tag_ends_at_the_next_ref_marker() {
    assert_eq!(remote_tags("h\trefs/tags/a/refs/tags/b"), names(&["a/"]));
    assert_eq!(remote_tags("h\trefs/tags/refs/tags/b"), names(&[""]));
    assert_eq!(remote_tags("h\trefs/tags/"), names(&[""]));
    assert_eq!(remote_tags("refs/tags/v1\nrefs/tags/v2"), names(&["v1", "v2"]));
    assert_eq!(remote_tags("h\trefs/tags/v1.0.0^{}"), names(&["v1.0.0^{}"]));
}

#[test]
fn line_endings_do_not_belong_to_the_tag() {
    assert_eq!(remote_tags("h\trefs/tags/v1.0.0\r\nh\trefs/tags/v1.1.0\r\n"), names(&["v1.0.0", "v1.1.0"]));
    assert_eq!(remote_tags("h\trefs/tags/v1.0.0\r"), names(&["v1.0.0\r"]));
    assert_eq!(remote_tags("h\trefs/tags/v1.0.0\r\r\n"), names(&["v1.0.0\r"]));
    assert_eq!(local_tags("a\r\nb\r"), names(&["a", "b\r"]));
    assert_eq!(local_tags("a\n\r\nb"), names(&["a", "", "b"]));
}

#[test]
fn local_tags_are_one_to_a_line() {
    assert_eq!(local_tags("v1.1.0\nv1.0.0\n"), names(&["v1.1.0", "v1.0.0"]));
    assert_eq!(local_tags("v1.1.0\nv1.0.0"), names(&["v1.1.0", "v1.0.0"]));
    assert_eq!(local_tags("v1\nv2\n\nv3"), names(&["v1", "v2", "", "v3"]));
    assert_eq!(local_tags(""), Vec::<String>::new());
    assert_eq!(local_tags("\n"), names(&[""]));
    assert_eq!(local_tags(" v1 \n"), names(&[" v1 "]));
    assert_eq!(local_tags("\u{7248}\u{672c}\nv1"), names(&["\u{7248}\u{672c}", "v1"]));
}

#[test]
fn no_more_local_tags_than_the_limit_are_read() {
    assert_eq!(LOCAL_TAG_LIMIT, 100);
    let mut output = String::new();
    for i in 0..150 {
        output.push_str(&format!("v1.0.{}\n", i));
    }
    let tags = local_tags(&output);
    assert_eq!(tags.len(), 100);
    assert_eq!(tags[0], "v1.0.0");
    assert_eq!(tags[99], "v1.0.99");
    let hundred: String = (0..100).map(|i| format!("v{}\n", i)).collect();
    assert_eq!(local_tags(&hundred).len(), 100);
    let fewer: String = (0..99).map(|i| format!("v{}\n", i)).collect();
    assert_eq!(local_tags(&fewer).len(), 99);
}

#[test]
fn the_latest_version_is_resolved_from_what_git_printed() {
    let remote = "a1\trefs/tags/v1.0.0\na2\trefs/tags/v1.1.0\na3\trefs/tags/bad-tag\n";
    let local = "v1.0.5\n";
    assert_eq!(latest_version(Channel::Release, remote, local).unwrap().raw(), "v1.1.0");
    let local = "v1.0.5\nv1.0.4\nv1.0.3\n";
    assert_eq!(latest_version(Channel::Release, remote, local).unwrap().raw(), "v1.0.5");
    assert_eq!(latest_version(Channel::Release, "", local).unwrap().raw(), "v1.0.5");
    assert_eq!(latest_version(Channel::Master, remote, "").unwrap().raw(), "v1.1.0");
    let error = latest_version(Channel::Master, "", "").unwrap_err();
    assert_eq!(error.channel, Channel::Master);
}

#[test]
fn local_tags_beyond_the_limit_are_no_candidates() {
    let mut local = String::new();
    for i in 0..100 {
        local.push_str(&format!("v1.0.{}\n", i));
    }
    local.push_str("v9.9.9\n");
    assert_eq!(latest_version(Channel::Release, "", &local).unwrap().raw(), "v1.0.99");
}
