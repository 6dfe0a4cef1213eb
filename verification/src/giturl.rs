//! Rules on the address of the Git repository: which address is used, whether
//! an address is well formed, and whether two addresses name the same remote.

use crate::text::{
    chars_of, find_before, first_occurrence, slice_of, stands_at, str_text_of, trim, trim_spec,
};
use vstd::prelude::*;

verus! {

/// Whether the regular expression `pattern` finds a match somewhere in `text`;
/// `None` where `pattern` is no regular expression that can be compiled.
pub uninterp spec fn regex_finds(pattern: Seq<char>, text: Seq<char>) -> Option<bool>;

/// Compiles `pattern` with `regex::Regex::new` and searches `text` with
/// `Regex::is_match`: whether there is a match anywhere in `text`, and `None`
/// where the pattern is refused. Both depend on the two texts alone.
#[verifier::external_body]
fn regex_is_match(pattern: &str, text: &str) -> (found: Option<bool>)
    ensures
        found == regex_finds(pattern@, text@),
{
    match regex::Regex::new(pattern) {
        Ok(compiled) => Some(compiled.is_match(text)),
        Err(_) => None,
    }
}

/// The lowercase equivalent of `s`, as Unicode defines it.
pub uninterp spec fn lowercase_of(s: Seq<char>) -> Seq<char>;

/// `str::to_lowercase` of the standard library returns the lowercase equivalent
/// of a string, which depends on the string alone.
pub assume_specification[ str::to_lowercase ](s: &str) -> (lower: String)
    ensures
        lower@ == lowercase_of(s@),
;

/// `://`, which parts the protocol of an address from the rest.
pub open spec fn protocol_mark() -> Seq<char> {
    seq![':', '/', '/']
}

/// `git@`, which starts an address in the short SSH form.
pub open spec fn ssh_user() -> Seq<char> {
    seq!['g', 'i', 't', '@']
}

/// The address has one of the known forms: `https://host/path`,
/// `http://host/path`, `git@host:path`, `ssh://git@host/path` or `file://path`.
pub open spec fn has_known_form(address: Seq<char>) -> bool {
    ||| regex_finds(r"^https://[^/\s]+/.+$"@, address) == Some(true)
    ||| regex_finds(r"^http://[^/\s]+/.+$"@, address) == Some(true)
    ||| regex_finds(r"^git@[^:\s]+:.+$"@, address) == Some(true)
    ||| regex_finds(r"^ssh://git@[^/\s]+/.+$"@, address) == Some(true)
    ||| regex_finds(r"^file://.+$"@, address) == Some(true)
}

/// `protocol` is one of `http`, `https`, `ssh`, `git` and `file`.
pub open spec fn is_known_protocol(protocol: Seq<char>) -> bool {
    ||| protocol == "http"@
    ||| protocol == "https"@
    ||| protocol == "ssh"@
    ||| protocol == "git"@
    ||| protocol == "file"@
}

/// The parts of the address fit together. With a protocol: `://` occurs once,
/// the protocol is a known one, a `file` address names something, and any other
/// does not start its rest with `/`. In the short SSH form: a `:` follows, and
/// something other than `:` follows that. Any other address passes.
pub open spec fn parts_fit(address: Seq<char>) -> bool {
    match first_occurrence(address, protocol_mark(), 0) {
        Some(at) => {
            let protocol = address.take(at);
            let rest = address.skip(at + 3);
            &&& first_occurrence(address, protocol_mark(), at + 3) is None
            &&& is_known_protocol(protocol)
            &&& if protocol == "file"@ {
                rest.len() > 0
            } else {
                rest.len() == 0 || rest[0] != '/'
            }
        },
        None => if ssh_user().is_prefix_of(address) {
            match first_occurrence(address, seq![':'], 0) {
                Some(colon) => colon + 1 < address.len() && address[colon + 1] != ':',
                None => false,
            }
        } else {
            true
        },
    }
}

/// Whether `url` is a well-formed address of a Git repository: white space at
/// its ends aside, it is not empty, has one of the known forms, and its parts
/// fit together.
pub open spec fn valid_git_url_spec(url: Seq<char>) -> bool {
    let address = trim_spec(url);
    address.len() > 0 && has_known_form(address) && parts_fit(address)
}

/// Whether `address` has one of the known forms.
fn matches_known_form(address: &str) -> (known: bool)
    ensures
        known == has_known_form(address@),
{
    let found = regex_is_match(r"^https://[^/\s]+/.+$", address);
    if found == Some(true) {
        return true;
    }
    let found = regex_is_match(r"^http://[^/\s]+/.+$", address);
    if found == Some(true) {
        return true;
    }
    let found = regex_is_match(r"^git@[^:\s]+:.+$", address);
    if found == Some(true) {
        return true;
    }
    let found = regex_is_match(r"^ssh://git@[^/\s]+/.+$", address);
    if found == Some(true) {
        return true;
    }
    let found = regex_is_match(r"^file://.+$", address);
    found == Some(true)
}

/// Whether the first `len` characters of `text` are `word`.
fn starts_as(text: &Vec<char>, len: usize, word: &str) -> (same: bool)
    requires
        len <= text.len(),
    ensures
        same == (text@.take(len as int) == word@),
{
    let word = chars_of(word);
    if len != word.len() {
        return false;
    }
    let same = stands_at(text, len, 0, &word);
    proof {
        let head = text@.subrange(0, len as int);
        if same {
            assert forall|j: int| 0 <= j < len implies head[j] == word@[j] by {
                assert(head[0 + j] == word@[j]);
            }
            assert(head =~= word@);
        }
    }
    same
}

/// Whether the parts of `address` fit together.
pub fn has_sound_parts(address: &str) -> (sound: bool)
    ensures
        sound == parts_fit(address@),
{
    let text = chars_of(address);
    let len = text.len();
    let mark: Vec<char> = vec![':', '/', '/'];
    assert(text@.subrange(0, len as int) =~= text@);
    match find_before(&text, len, 0, &mark) {
        Some(at) => {
            if find_before(&text, len, at + 3, &mark).is_some() {
                return false;
            }
            let known = starts_as(&text, at, "http") || starts_as(&text, at, "https") || starts_as(
                &text,
                at,
                "ssh",
            ) || starts_as(&text, at, "git");
            if starts_as(&text, at, "file") {
                at + 3 < len
            } else if known {
                at + 3 == len || text[at + 3] != '/'
            } else {
                false
            }
        },
        None => {
            let user: Vec<char> = vec!['g', 'i', 't', '@'];
            let short_form = len >= 4 && stands_at(&text, len, 0, &user);
            proof {
                if short_form {
                    assert forall|j: int| 0 <= j < 4 implies text@.subrange(0, 4)[j] == user@[j] by {
                        assert(text@[0 + j] == user@[j]);
                    }
                } else if ssh_user().is_prefix_of(text@) {
                    assert forall|j: int| 0 <= j < 4 implies #[trigger] text@[0 + j] == user@[j] by {}
                }
            }
            if short_form {
                let colon_mark: Vec<char> = vec![':'];
                assert(colon_mark@ =~= seq![':']);
                match find_before(&text, len, 0, &colon_mark) {
                    Some(colon) => colon + 1 < len && text[colon + 1] != ':',
                    None => false,
                }
            } else {
                true
            }
        },
    }
}

/// Whether `address` is accepted, given whether it has one of the known forms: it
/// must not be empty, has to have a known form, and its parts have to fit
/// together.
pub fn accepts_git_url(address: &str, known_form: bool) -> (accepted: bool)
    ensures
        accepted == (address@.len() > 0 && known_form && parts_fit(address@)),
{
    address.unicode_len() > 0 && known_form && has_sound_parts(address)
}

/// Whether `url` is a well-formed address of a Git repository.
pub fn is_valid_git_url(url: &str) -> (valid: bool)
    ensures
        valid == valid_git_url_spec(url@),
{
    let address = trim(url);
    let known_form = matches_known_form(address.as_str());
    accepts_git_url(address.as_str(), known_form)
}

/// `s` without the `/` characters at its end.
pub open spec fn without_trailing_slashes(s: Seq<char>) -> Seq<char>
    decreases s.len(),
{
    if s.len() > 0 && s.last() == '/' {
        without_trailing_slashes(s.drop_last())
    } else {
        s
    }
}

/// `.git`, which an address may end in.
pub open spec fn git_suffix() -> Seq<char> {
    seq!['.', 'g', 'i', 't']
}

/// `s` without every `.git` at its end.
pub open spec fn without_git_suffixes(s: Seq<char>) -> Seq<char>
    decreases s.len(),
{
    if s.len() >= 4 && s.skip(s.len() - 4) == git_suffix() {
        without_git_suffixes(s.take(s.len() - 4))
    } else {
        s
    }
}

/// `address` without the `/` characters and then every `.git` at its end.
pub open spec fn bare_remote_spec(address: Seq<char>) -> Seq<char> {
    without_git_suffixes(without_trailing_slashes(address))
}

/// What identifies the remote that `url` names: the address without white space
/// at its ends, without `/` and then `.git` at its end, in lowercase.
pub open spec fn remote_key_spec(url: Seq<char>) -> Seq<char> {
    lowercase_of(bare_remote_spec(trim_spec(url)))
}

/// `address` without the `/` characters and then every `.git` at its end.
pub fn bare_remote(address: &str) -> (bare: String)
    ensures
        bare@ == bare_remote_spec(address@),
{
    let text = chars_of(address);
    let mut end = text.len();
    assert(text@.subrange(0, end as int) =~= text@);
    while end > 0 && text[end - 1] == '/'
        invariant
            end <= text.len(),
            without_trailing_slashes(text@) == without_trailing_slashes(
                text@.subrange(0, end as int),
            ),
        decreases end,
    {
        assert(text@.subrange(0, end as int).drop_last() =~= text@.subrange(0, end - 1));
        end = end - 1;
    }
    let ghost slashless = text@.subrange(0, end as int);
    let suffix: Vec<char> = vec!['.', 'g', 'i', 't'];
    loop
        invariant
            end <= text.len(),
            suffix@ == git_suffix(),
            without_git_suffixes(slashless) == without_git_suffixes(text@.subrange(0, end as int)),
        ensures
            end <= text.len(),
            without_git_suffixes(slashless) == text@.subrange(0, end as int),
        decreases end,
    {
        let ghost here = text@.subrange(0, end as int);
        if end < 4 {
            break;
        }
        let ends_in_suffix = stands_at(&text, end, end - 4, &suffix);
        proof {
            let tail = here.skip(here.len() - 4);
            if ends_in_suffix {
                assert forall|j: int| 0 <= j < 4 implies tail[j] == suffix@[j] by {
                    assert(here[end - 4 + j] == suffix@[j]);
                }
                assert(tail =~= suffix@);
                assert(here.take(here.len() - 4) =~= text@.subrange(0, end - 4));
            } else if tail == suffix@ {
                assert forall|j: int| 0 <= j < 4 implies #[trigger] here[end - 4 + j]
                    == suffix@[j] by {
                    assert(tail[j] == suffix@[j]);
                }
            }
        }
        if !ends_in_suffix {
            break;
        }
        end = end - 4;
    }
    slice_of(address, 0, end)
}

/// What identifies the remote that `url` names.
pub fn remote_key(url: &str) -> (key: String)
    ensures
        key@ == remote_key_spec(url@),
{
    let address = trim(url);
    bare_remote(address.as_str()).as_str().to_lowercase()
}

/// Whether two addresses name the same remote.
pub fn same_remote(expected: &str, current: &str) -> (same: bool)
    ensures
        same == (remote_key_spec(expected@) == remote_key_spec(current@)),
{
    remote_key(expected) == remote_key(current)
}

/// Where the address that is used comes from.
#[derive(Debug, Clone, Copy, PartialEq, Eq, Structural)]
pub enum UrlSource {
    /// The configuration file of the installation.
    Stored,
    /// The address that the user gave.
    Provided,
}

/// The address that is used, and where it comes from.
#[derive(Debug)]
pub struct GitUrlChoice {
    pub url: String,
    pub source: UrlSource,
}

/// Neither the configuration file nor the user names an address.
#[derive(Debug)]
pub struct MissingGitUrl;

/// The address that is used: the stored one, without white space at its ends,
/// unless it is blank; else the provided one, as it stands.
pub open spec fn choose_git_url_spec(stored: Option<Seq<char>>, provided: Option<Seq<char>>) -> Option<
    (Seq<char>, UrlSource),
> {
    if stored is Some && trim_spec(stored->0).len() > 0 {
        Some((trim_spec(stored->0), UrlSource::Stored))
    } else if provided is Some {
        Some((provided->0, UrlSource::Provided))
    } else {
        None
    }
}

/// Picks the address of the repository. `stored` is what the configuration file
/// holds, if it could be read; `provided` is what the user gave. The stored
/// address has priority.
pub fn choose_git_url(stored: Option<&str>, provided: Option<&str>) -> (choice: Result<
    GitUrlChoice,
    MissingGitUrl,
>)
    ensures
        match choice {
            Ok(chosen) => choose_git_url_spec(
                str_text_of(stored),
                str_text_of(provided),
            ) == Some((chosen.url@, chosen.source)),
            Err(_) => choose_git_url_spec(
                str_text_of(stored),
                str_text_of(provided),
            ) is None,
        },
{
    if let Some(content) = stored {
        let address = trim(content);
        if address.as_str().unicode_len() > 0 {
            return Ok(GitUrlChoice { url: address, source: UrlSource::Stored });
        }
    }
    match provided {
        Some(address) => Ok(GitUrlChoice { url: address.to_owned(), source: UrlSource::Provided }),
        None => Err(MissingGitUrl),
    }
}

} // verus!
