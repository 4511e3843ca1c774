//! Deciding, for one resolved dependency, what the recipe says of it.

use vstd::prelude::*;
use vstd::string::*;
use crate::error::{ErrorModel, SynthesisError};
use crate::origin::{DependencyModel, Origin, OriginModel, ResolvedDependency};
use crate::revision::{resolve, resolved};
use crate::text::{same_text, texts};

verus! {

/// What the recipe says of one dependency.
#[derive(Clone, Debug)]
pub enum Decision {
    /// Nothing: the dependency is built from the local tree.
    Skip,
    /// A package fetched from the registry, with the declaration of its
    /// checksum where one is known.
    Registry { locator: String, checksum_line: Option<String> },
    /// A repository to clone, with its pin lines.
    VersionControl { locator: String, pin_lines: Vec<String> },
    /// Some other remote location, fetched by its URL.
    Other { locator: String },
}

/// Mathematical model of a [`Decision`].
pub enum DecisionModel {
    Skip,
    Registry { locator: Seq<char>, checksum_line: Option<Seq<char>> },
    VersionControl { locator: Seq<char>, pin_lines: Seq<Seq<char>> },
    Other { locator: Seq<char> },
}

impl DecisionModel {
    /// The fetch locator that the decision contributes, if any.
    pub open spec fn locator(self) -> Option<Seq<char>> {
        match self {
            DecisionModel::Skip => None,
            DecisionModel::Registry { locator, .. } => Some(locator),
            DecisionModel::VersionControl { locator, .. } => Some(locator),
            DecisionModel::Other { locator } => Some(locator),
        }
    }

    /// The auxiliary lines that the decision contributes.
    pub open spec fn auxiliary(self) -> Seq<Seq<char>> {
        match self {
            DecisionModel::Skip => Seq::empty(),
            DecisionModel::Registry { checksum_line, .. } => match checksum_line {
                Some(line) => seq![line],
                None => Seq::empty(),
            },
            DecisionModel::VersionControl { pin_lines, .. } => pin_lines,
            DecisionModel::Other { .. } => Seq::empty(),
        }
    }
}

impl View for Decision {
    type V = DecisionModel;

    open spec fn view(&self) -> DecisionModel {
        match self {
            Decision::Skip => DecisionModel::Skip,
            Decision::Registry { locator, checksum_line } => DecisionModel::Registry {
                locator: locator@,
                checksum_line: crate::origin::text_of(*checksum_line),
            },
            Decision::VersionControl { locator, pin_lines } => DecisionModel::VersionControl {
                locator: locator@,
                pin_lines: texts(pin_lines@),
            },
            Decision::Other { locator } => DecisionModel::Other { locator: locator@ },
        }
    }
}

/// The domain of the default registry.
pub open spec fn registry_domain() -> Seq<char> {
    "crates.io"@
}

/// The fetch locator of a registry package.
pub open spec fn registry_locator(name: Seq<char>, version: Seq<char>) -> Seq<char> {
    "crate://"@ + registry_domain() + "/"@ + name + "/"@ + version
}

/// The declaration of a registry package's checksum.
pub open spec fn checksum_line(name: Seq<char>, version: Seq<char>, digest: Seq<char>) -> Seq<
    char,
> {
    "SRC_URI["@ + name + "-"@ + version + ".sha256sum] = \""@ + digest + "\""@
}

/// What [`classify`] decides for `dep`, given the names of the workspace's
/// own members. The rules apply in this order: a member of the workspace is
/// skipped whatever its origin; a registry package gets its locator and, if
/// a digest is recorded, its checksum line; a local path is skipped; a
/// repository is resolved to its pin; any other remote is fetched by its URL.
pub open spec fn classified(
    dep: DependencyModel,
    members: Seq<Seq<char>>,
    reproducible: bool,
) -> Result<DecisionModel, ErrorModel> {
    if members.contains(dep.name) {
        Ok(DecisionModel::Skip)
    } else {
        match dep.origin {
            OriginModel::Registry => Ok(
                DecisionModel::Registry {
                    locator: registry_locator(dep.name, dep.version),
                    checksum_line: match dep.checksum {
                        Some(digest) => Some(checksum_line(dep.name, dep.version, digest)),
                        None => None,
                    },
                },
            ),
            OriginModel::LocalPath => Ok(DecisionModel::Skip),
            OriginModel::VersionControl(vcs) => match resolved(dep.name, vcs, reproducible) {
                Ok(pin) => Ok(
                    DecisionModel::VersionControl {
                        locator: pin.locator,
                        pin_lines: pin.pin_lines,
                    },
                ),
                Err(e) => Err(e),
            },
            OriginModel::OtherRemote { url } => Ok(DecisionModel::Other { locator: url }),
        }
    }
}

/// The domain of the default registry, as `cargo::sources::CRATES_IO_DOMAIN`
/// gives it. The contract repeats the constant's value, `crates.io`; it is
/// taken on trust.
#[verifier::external_body]
fn default_registry_domain() -> (out: String)
    ensures
        out@ == registry_domain(),
{
    cargo::sources::CRATES_IO_DOMAIN.to_string()
}

/// Tells whether `name` is the name of a workspace member.
pub fn is_member(name: &str, members: &Vec<String>) -> (out: bool)
    ensures
        out == texts(members@).contains(name@),
{
    let mut i: usize = 0;
    while i < members.len()
        invariant
            i <= members.len(),
            forall|j: int| 0 <= j < i ==> texts(members@)[j] != name@,
        decreases members.len() - i,
    {
        if same_text(members[i].as_str(), name) {
            proof {
                assert(texts(members@)[i as int] == name@);
            }
            return true;
        }
        i += 1;
    }
    false
}

/// Builds the fetch locator of a registry package.
pub fn make_registry_locator(name: &str, version: &str) -> (out: String)
    ensures
        out@ == registry_locator(name@, version@),
{
    let mut locator = "crate://".to_string();
    let domain = default_registry_domain();
    locator.append(domain.as_str());
    locator.append("/");
    locator.append(name);
    locator.append("/");
    locator.append(version);
    locator
}

/// Builds the declaration of a registry package's checksum.
pub fn make_checksum_line(name: &str, version: &str, digest: &str) -> (out: String)
    ensures
        out@ == checksum_line(name@, version@, digest@),
{
    let mut line = "SRC_URI[".to_string();
    line.append(name);
    line.append("-");
    line.append(version);
    line.append(".sha256sum] = \"");
    line.append(digest);
    line.append("\"");
    line
}

/// Decides what the recipe says of `dep`.
///
/// Fails only for a repository whose reference is an abbreviated commit
/// with no exact commit recorded.
pub fn classify(dep: &ResolvedDependency, members: &Vec<String>, reproducible: bool) -> (out:
    Result<Decision, SynthesisError>)
    ensures
        match classified(dep@, texts(members@), reproducible) {
            Ok(decision) => out is Ok && out->Ok_0@ == decision,
            Err(e) => out is Err && out->Err_0@ == e,
        },
{
    if is_member(dep.name.as_str(), members) {
        return Ok(Decision::Skip);
    }
    match &dep.origin {
        Origin::Registry => {
            let locator = make_registry_locator(dep.name.as_str(), dep.version.as_str());
            let checksum_line = match &dep.checksum {
                Some(digest) => Some(
                    make_checksum_line(dep.name.as_str(), dep.version.as_str(), digest.as_str()),
                ),
                None => None,
            };
            Ok(Decision::Registry { locator, checksum_line })
        },
        Origin::LocalPath => Ok(Decision::Skip),
        Origin::VersionControl(vcs) => {
            match resolve(dep.name.as_str(), vcs, reproducible) {
                Ok(pin) => Ok(
                    Decision::VersionControl { locator: pin.locator, pin_lines: pin.pin_lines },
                ),
                Err(e) => Err(e),
            }
        },
        Origin::OtherRemote { url } => Ok(Decision::Other { locator: url.clone() }),
    }
}

} // verus!
