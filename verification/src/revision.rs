//! Pinning a version-control dependency to a revision.

use vstd::prelude::*;
use vstd::string::*;
use crate::error::{ErrorModel, SynthesisError};
use crate::fetch::{fetch_url, to_fetch_url, GitPrefix};
use crate::origin::{text_of, ReferenceKind, ReferenceModel, VcsOrigin, VcsOriginModel};
use crate::text::{same_text, texts};

verus! {

/// The revision that tells the fetcher to follow the newest commit.
pub open spec fn autorev() -> Seq<char> {
    "${AUTOREV}"@
}

/// The branch name that stands for "follow the newest commit".
pub open spec fn floating_branch() -> Seq<char> {
    "master"@
}

/// The number of characters of a commit identifier written in full.
pub open spec fn full_hash_len() -> nat {
    40
}

/// The revision that a version-control origin is pinned to, or `None` where
/// no reproducible one can be derived.
///
/// In reproducible mode the exact commit recorded by the resolver wins over
/// every symbolic reference. Otherwise a tag and a branch stand for
/// themselves, except the floating branch and the default branch, which
/// follow the newest commit; a commit identifier stands for itself only when
/// written in full, and falls back on the recorded commit when abbreviated.
pub open spec fn pinned_rev(origin: VcsOriginModel, reproducible: bool) -> Option<Seq<char>> {
    if reproducible && origin.precise_fragment is Some {
        origin.precise_fragment
    } else {
        match origin.reference {
            ReferenceModel::Tag(name) => Some(name),
            ReferenceModel::Rev(id) => if id.len() == full_hash_len() {
                Some(id)
            } else {
                origin.precise_fragment
            },
            ReferenceModel::Branch(name) => if name == floating_branch() {
                Some(autorev())
            } else {
                Some(name)
            },
            ReferenceModel::DefaultBranch => Some(autorev()),
        }
    }
}

/// The line that adds the dependency to the revision format.
pub open spec fn format_hint_line(name: Seq<char>) -> Seq<char> {
    "SRCREV_FORMAT .= \"_"@ + name + "\""@
}

/// The line that binds the dependency's name to its revision.
pub open spec fn revision_line(name: Seq<char>, rev: Seq<char>) -> Seq<char> {
    "SRCREV_"@ + name + " = \""@ + rev + "\""@
}

/// The line that tells the build where the dependency is unpacked.
pub open spec fn search_path_line(name: Seq<char>) -> Seq<char> {
    "EXTRA_OECARGO_PATHS += \"${WORKDIR}/"@ + name + "\""@
}

/// The three pin lines of a dependency, in the order they are emitted.
pub open spec fn pin_lines(name: Seq<char>, rev: Seq<char>) -> Seq<Seq<char>> {
    seq![format_hint_line(name), revision_line(name, rev), search_path_line(name)]
}

/// What the resolver hands back for one version-control dependency.
#[derive(Clone, Debug)]
pub struct VcsPin {
    /// The download URL of the repository, named after the dependency.
    pub locator: String,
    /// The format hint, the revision assignment and the search path.
    pub pin_lines: Vec<String>,
}

/// Mathematical model of a [`VcsPin`].
pub struct VcsPinModel {
    pub locator: Seq<char>,
    pub pin_lines: Seq<Seq<char>>,
}

impl View for VcsPin {
    type V = VcsPinModel;

    open spec fn view(&self) -> VcsPinModel {
        VcsPinModel { locator: self.locator@, pin_lines: texts(self.pin_lines@) }
    }
}

/// What [`resolve`] returns for a dependency `name` of origin `origin`.
pub open spec fn resolved(name: Seq<char>, origin: VcsOriginModel, reproducible: bool) -> Result<
    VcsPinModel,
    ErrorModel,
> {
    match pinned_rev(origin, reproducible) {
        Some(rev) => Ok(
            VcsPinModel {
                locator: fetch_url(origin.url, Some(name), GitPrefix::Git),
                pin_lines: pin_lines(name, rev),
            },
        ),
        None => Err(ErrorModel::UnresolvablePin { dependency: name }),
    }
}

/// Picks the revision that `origin` is pinned to.
pub fn resolve_rev(origin: &VcsOrigin, reproducible: bool) -> (out: Option<String>)
    ensures
        text_of(out) == pinned_rev(origin@, reproducible),
{
    if reproducible {
        if let Some(exact) = &origin.precise_fragment {
            return Some(exact.clone());
        }
    }
    match &origin.reference {
        ReferenceKind::Tag(name) => Some(name.clone()),
        ReferenceKind::Rev(id) => {
            if id.as_str().unicode_len() == 40 {
                Some(id.clone())
            } else {
                match &origin.precise_fragment {
                    Some(exact) => Some(exact.clone()),
                    None => None,
                }
            }
        },
        ReferenceKind::Branch(name) => {
            if same_text(name.as_str(), "master") {
                Some("${AUTOREV}".to_string())
            } else {
                Some(name.clone())
            }
        },
        ReferenceKind::DefaultBranch => Some("${AUTOREV}".to_string()),
    }
}

/// Builds the line that adds the dependency to the revision format.
pub fn make_format_hint_line(name: &str) -> (out: String)
    ensures
        out@ == format_hint_line(name@),
{
    let mut line = "SRCREV_FORMAT .= \"_".to_string();
    line.append(name);
    line.append("\"");
    line
}

/// Builds the line that binds the dependency's name to `rev`.
pub fn make_revision_line(name: &str, rev: &str) -> (out: String)
    ensures
        out@ == revision_line(name@, rev@),
{
    let mut line = "SRCREV_".to_string();
    line.append(name);
    line.append(" = \"");
    line.append(rev);
    line.append("\"");
    line
}

/// Builds the line that tells the build where the dependency is unpacked.
pub fn make_search_path_line(name: &str) -> (out: String)
    ensures
        out@ == search_path_line(name@),
{
    let mut line = "EXTRA_OECARGO_PATHS += \"${WORKDIR}/".to_string();
    line.append(name);
    line.append("\"");
    line
}

/// Resolves the version-control dependency `name`: its download URL and its
/// three pin lines, or the error that no reproducible pin exists.
pub fn resolve(name: &str, origin: &VcsOrigin, reproducible: bool) -> (out: Result<
    VcsPin,
    SynthesisError,
>)
    ensures
        match resolved(name@, origin@, reproducible) {
            Ok(pin) => out is Ok && out->Ok_0@ == pin,
            Err(e) => out is Err && out->Err_0@ == e,
        },
{
    match resolve_rev(origin, reproducible) {
        Some(rev) => {
            let mut lines: Vec<String> = Vec::new();
            lines.push(make_format_hint_line(name));
            lines.push(make_revision_line(name, rev.as_str()));
            lines.push(make_search_path_line(name));
            proof {
                assert(texts(lines@) =~= pin_lines(name@, rev@));
            }
            let locator = to_fetch_url(origin.url.as_str(), Some(name), GitPrefix::Git);
            Ok(VcsPin { locator, pin_lines: lines })
        },
        None => Err(SynthesisError::UnresolvablePin { dependency: name.to_string() }),
    }
}

/// In reproducible mode the exact commit recorded by the resolver is the
/// revision, whatever the symbolic reference says.
pub proof fn law_reproducible_prefers_exact(origin: VcsOriginModel)
    requires
        origin.precise_fragment is Some,
    ensures
        pinned_rev(origin, true) == origin.precise_fragment,
{
}

/// Outside reproducible mode the floating branch and the default branch
/// follow the newest commit, whether or not an exact commit is recorded.
pub proof fn law_floating_reference_follows_newest(origin: VcsOriginModel)
    requires
        origin.reference == ReferenceModel::Branch(floating_branch()) || origin.reference
            == ReferenceModel::DefaultBranch,
    ensures
        pinned_rev(origin, false) == Some(autorev()),
{
}

/// An abbreviated commit with no exact commit recorded cannot be pinned, in
/// either mode, and resolving it fails with the dependency's name.
pub proof fn law_abbreviated_commit_fails(
    name: Seq<char>,
    origin: VcsOriginModel,
    reproducible: bool,
)
    requires
        origin.reference matches ReferenceModel::Rev(id) && id.len() != full_hash_len(),
        origin.precise_fragment is None,
    ensures
        pinned_rev(origin, reproducible) is None,
        resolved(name, origin, reproducible) == Err::<VcsPinModel, ErrorModel>(
            ErrorModel::UnresolvablePin { dependency: name },
        ),
{
}

/// Resolution fails in no other case than that of an abbreviated commit
/// with no exact commit recorded.
pub proof fn law_only_abbreviated_commit_fails(origin: VcsOriginModel, reproducible: bool)
    requires
        pinned_rev(origin, reproducible) is None,
    ensures
        origin.reference matches ReferenceModel::Rev(id) && id.len() != full_hash_len(),
        origin.precise_fragment is None,
{
}

/// A tag is its own revision, in either mode, unless reproducible mode
/// finds an exact commit recorded.
pub proof fn law_tag_passes_through(tag: Seq<char>, origin: VcsOriginModel, reproducible: bool)
    requires
        origin.reference == ReferenceModel::Tag(tag),
        !(reproducible && origin.precise_fragment is Some),
    ensures
        pinned_rev(origin, reproducible) == Some(tag),
{
}

/// A repository that is resolved gets exactly three pin lines: one format
/// hint, one revision assignment and one search path.
pub proof fn law_three_pin_lines(name: Seq<char>, origin: VcsOriginModel, reproducible: bool)
    requires
        pinned_rev(origin, reproducible) is Some,
    ensures
        resolved(name, origin, reproducible) is Ok,
        resolved(name, origin, reproducible)->Ok_0.pin_lines.len() == 3,
        resolved(name, origin, reproducible)->Ok_0.pin_lines[1] == revision_line(
            name,
            pinned_rev(origin, reproducible)->Some_0,
        ),
{
}

} // verus!
