//! Repository URLs as the fetcher of the build system wants them.

use vstd::prelude::*;
use vstd::string::*;
use crate::text::{chars_of, same_text};

verus! {

/// The fetcher that a download URL names.
#[derive(Clone, Copy, Debug, PartialEq, Eq, Structural)]
pub enum GitPrefix {
    /// The plain fetcher.
    Git,
    /// The fetcher that also brings the submodules.
    GitSubmodule,
}

/// The scheme that stands for a fetcher.
pub open spec fn prefix_text(prefix: GitPrefix) -> Seq<char> {
    match prefix {
        GitPrefix::Git => "git"@,
        GitPrefix::GitSubmodule => "gitsm"@,
    }
}

/// The pattern of a remote written as for a secure shell:
/// `user@host:path`.
pub open spec fn ssh_style_pattern() -> Seq<char> {
    ".*@.*:.*"@
}

/// Whether the regular expression `pattern` matches somewhere in `text`,
/// or `None` where `pattern` is no regular expression: what `Regex::new`
/// and `Regex::is_match` of the crate regex make of the two.
pub uninterp spec fn regex_match(pattern: Seq<char>, text: Seq<char>) -> Option<bool>;

/// Compiles `pattern` with `regex::Regex::new` and searches `text` with
/// `Regex::is_match`. Both depend on their arguments alone. Nothing more
/// is claimed than that the result is what that engine finds; this is
/// taken on trust.
#[verifier::external_body]
fn pattern_matches(pattern: &str, text: &str) -> (out: Option<bool>)
    ensures
        out == regex_match(pattern@, text@),
{
    match regex::Regex::new(pattern) {
        Ok(compiled) => Some(compiled.is_match(text)),
        Err(_) => None,
    }
}

/// `url` is written as for a secure shell.
pub open spec fn is_ssh_style(url: Seq<char>) -> bool {
    regex_match(ssh_style_pattern(), url) == Some(true)
}

/// `text` with a slash in place of every colon.
pub open spec fn with_slashes(text: Seq<char>) -> Seq<char> {
    text.map_values(
        |c: char|
            if c == ':' {
                '/'
            } else {
                c
            },
    )
}

/// The place of the first `c` in `text`, or the length of `text` where it
/// holds none.
pub open spec fn first_index_of(text: Seq<char>, c: char) -> int
    decreases text.len(),
{
    if text.len() == 0 || text[0] == c {
        0
    } else {
        1 + first_index_of(text.drop_first(), c)
    }
}

/// The URL with its scheme written out: a remote in secure-shell style
/// becomes an `ssh` URL, any other stays as it is.
pub open spec fn explicit_url(url: Seq<char>, ssh_style: bool) -> Seq<char> {
    if ssh_style {
        "ssh://"@ + with_slashes(url)
    } else {
        url
    }
}

/// The URL with the fetcher as its scheme and the scheme it had as the
/// protocol parameter. A URL without a scheme is left as it is.
pub open spec fn with_fetcher(url: Seq<char>, prefix: GitPrefix) -> Seq<char> {
    let colon = first_index_of(url, ':');
    if colon < url.len() {
        prefix_text(prefix) + url.skip(colon) + ";protocol="@ + url.take(colon)
    } else {
        url
    }
}

/// The parameters that give the download the dependency's name.
pub open spec fn name_parameters(name: Option<Seq<char>>) -> Seq<char> {
    match name {
        Some(name) => ";name="@ + name + ";destsuffix="@ + name,
        None => Seq::empty(),
    }
}

/// The download URL of the repository at `url`, where `ssh_style` says
/// whether `url` is written as for a secure shell: the explicit URL with
/// the fetcher as scheme, open to every branch, and named after the
/// dependency if one is given.
pub open spec fn fetch_url_given(
    url: Seq<char>,
    name: Option<Seq<char>>,
    prefix: GitPrefix,
    ssh_style: bool,
) -> Seq<char> {
    with_fetcher(explicit_url(url, ssh_style), prefix) + ";nobranch=1"@ + name_parameters(name)
}

/// The download URL of the repository at `url`.
pub open spec fn fetch_url(url: Seq<char>, name: Option<Seq<char>>, prefix: GitPrefix) -> Seq<
    char,
> {
    fetch_url_given(url, name, prefix, is_ssh_style(url))
}

/// The first place of `c` is the place before which there is none and at
/// which there is one, or the text ends.
pub proof fn lemma_first_index_of(text: Seq<char>, c: char, k: int)
    requires
        0 <= k <= text.len(),
        forall|j: int| 0 <= j < k ==> text[j] != c,
        k < text.len() ==> text[k] == c,
    ensures
        first_index_of(text, c) == k,
    decreases text.len(),
{
    if k > 0 {
        let rest = text.drop_first();
        assert forall|j: int| 0 <= j < k - 1 implies rest[j] != c by {
            assert(rest[j] == text[j + 1]);
        }
        lemma_first_index_of(rest, c, k - 1);
    }
}

/// Writes a slash in place of every colon of `text`.
pub fn replace_colons(text: &str) -> (out: String)
    ensures
        out@ == with_slashes(text@),
{
    let chars = chars_of(text);
    let mut out = String::new();
    let mut i: usize = 0;
    proof {
        reveal_strlit("/");
        assert(out@ =~= with_slashes(text@.take(0)));
    }
    while i < chars.len()
        invariant
            chars@ == text@,
            i <= chars.len(),
            "/"@ == seq!['/'],
            out@ == with_slashes(text@.take(i as int)),
        decreases chars.len() - i,
    {
        let ghost earlier = out@;
        if chars[i] == ':' {
            out.append("/");
        } else {
            out.append(text.substring_char(i, i + 1));
        }
        proof {
            let expected = with_slashes(text@.take(i + 1));
            assert(out@.len() == expected.len());
            assert forall|j: int| 0 <= j < expected.len() implies out@[j] == expected[j] by {
                if j < i {
                    assert(out@[j] == earlier[j]);
                    assert(text@.take(i as int)[j] == text@.take(i + 1)[j]);
                } else {
                    assert(text@.subrange(i as int, i + 1)[0] == text@[i as int]);
                }
            }
            assert(out@ =~= expected);
        }
        i += 1;
    }
    proof {
        assert(text@.take(i as int) =~= text@);
    }
    out
}

/// Finds the first `c` in `text`.
pub fn find_first(text: &str, c: char) -> (out: usize)
    ensures
        out == first_index_of(text@, c),
        out <= text@.len(),
{
    let chars = chars_of(text);
    let mut i: usize = 0;
    while i < chars.len() && chars[i] != c
        invariant
            chars@ == text@,
            i <= chars.len(),
            forall|j: int| 0 <= j < i ==> text@[j] != c,
        decreases chars.len() - i,
    {
        i += 1;
    }
    proof {
        lemma_first_index_of(text@, c, i as int);
    }
    i
}

/// Writes the download URL of the repository at `url`, given whether
/// `url` is written as for a secure shell.
pub fn to_fetch_url_given(url: &str, name: Option<&str>, prefix: GitPrefix, ssh_style: bool) -> (out:
    String)
    ensures
        out@ == fetch_url_given(
            url@,
            match name {
                Some(name) => Some(name@),
                None => None,
            },
            prefix,
            ssh_style,
        ),
{
    let explicit = if ssh_style {
        let mut explicit = "ssh://".to_string();
        let slashed = replace_colons(url);
        explicit.append(slashed.as_str());
        explicit
    } else {
        url.to_string()
    };
    let colon = find_first(explicit.as_str(), ':');
    let length = explicit.as_str().unicode_len();
    let mut out = if colon < length {
        let mut out = match prefix {
            GitPrefix::Git => "git".to_string(),
            GitPrefix::GitSubmodule => "gitsm".to_string(),
        };
        out.append(explicit.as_str().substring_char(colon, length));
        out.append(";protocol=");
        out.append(explicit.as_str().substring_char(0, colon));
        out
    } else {
        explicit
    };
    out.append(";nobranch=1");
    match name {
        Some(name) => {
            out.append(";name=");
            out.append(name);
            out.append(";destsuffix=");
            out.append(name);
            proof {
                assert(out@ =~= fetch_url_given(url@, Some(name@), prefix, ssh_style));
            }
        },
        None => {
            proof {
                assert(out@ =~= fetch_url_given(url@, None, prefix, ssh_style));
            }
        },
    }
    out
}

/// Writes the download URL of the repository at `url`, naming the
/// download after the dependency if `name` is given.
pub fn to_fetch_url(url: &str, name: Option<&str>, prefix: GitPrefix) -> (out: String)
    ensures
        out@ == fetch_url(
            url@,
            match name {
                Some(name) => Some(name@),
                None => None,
            },
            prefix,
        ),
{
    let ssh_style = match pattern_matches(".*@.*:.*", url) {
        Some(found) => found,
        None => false,
    };
    to_fetch_url_given(url, name, prefix, ssh_style)
}

/// A branch whose name need not be told to the fetcher: the one it looks
/// at by itself, and a head that is on no branch.
pub open spec fn is_unnamed_branch(branch: Seq<char>) -> bool {
    branch == "master"@ || branch == "HEAD"@
}

/// The download URL with the branch to look at, where that has to be told.
pub open spec fn on_branch(url: Seq<char>, branch: Seq<char>) -> Seq<char> {
    if is_unnamed_branch(branch) {
        url
    } else {
        url + ";branch="@ + branch
    }
}

/// Adds the branch that is checked out to the download URL of the
/// project's own repository.
pub fn with_branch(url: String, branch: &str) -> (out: String)
    ensures
        out@ == on_branch(url@, branch@),
{
    if same_text(branch, "master") || same_text(branch, "HEAD") {
        url
    } else {
        let mut out = url;
        out.append(";branch=");
        out.append(branch);
        out
    }
}

} // verus!
