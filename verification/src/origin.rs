//! The resolved dependency graph as the synthesizer reads it.

use vstd::prelude::*;

verus! {

/// The characters of an optional string.
pub open spec fn text_of(s: Option<String>) -> Option<Seq<char>> {
    match s {
        Some(t) => Some(t@),
        None => None,
    }
}

/// The symbolic reference that a version-control dependency was declared with.
#[derive(Clone, Debug)]
pub enum ReferenceKind {
    /// A named tag.
    Tag(String),
    /// A named branch.
    Branch(String),
    /// A commit identifier, possibly abbreviated.
    Rev(String),
    /// Whatever branch the remote treats as its default.
    DefaultBranch,
}

/// Mathematical model of a [`ReferenceKind`].
pub enum ReferenceModel {
    Tag(Seq<char>),
    Branch(Seq<char>),
    Rev(Seq<char>),
    DefaultBranch,
}

impl View for ReferenceKind {
    type V = ReferenceModel;

    open spec fn view(&self) -> ReferenceModel {
        match self {
            ReferenceKind::Tag(name) => ReferenceModel::Tag(name@),
            ReferenceKind::Branch(name) => ReferenceModel::Branch(name@),
            ReferenceKind::Rev(id) => ReferenceModel::Rev(id@),
            ReferenceKind::DefaultBranch => ReferenceModel::DefaultBranch,
        }
    }
}

/// A version-control origin.
#[derive(Clone, Debug)]
pub struct VcsOrigin {
    /// The repository URL as the resolver recorded it.
    pub url: String,
    /// The symbolic reference the dependency was declared with.
    pub reference: ReferenceKind,
    /// The exact commit the resolver settled on, when it recorded one.
    pub precise_fragment: Option<String>,
}

/// Mathematical model of a [`VcsOrigin`].
pub struct VcsOriginModel {
    pub url: Seq<char>,
    pub reference: ReferenceModel,
    pub precise_fragment: Option<Seq<char>>,
}

impl View for VcsOrigin {
    type V = VcsOriginModel;

    open spec fn view(&self) -> VcsOriginModel {
        VcsOriginModel {
            url: self.url@,
            reference: self.reference@,
            precise_fragment: text_of(self.precise_fragment),
        }
    }
}

/// Where a resolved dependency comes from.
#[derive(Clone, Debug)]
pub enum Origin {
    /// The default package registry.
    Registry,
    /// A version-control repository.
    VersionControl(VcsOrigin),
    /// A directory inside the source tree that is being packaged.
    LocalPath,
    /// Any other remote location, known only by its URL.
    OtherRemote { url: String },
}

/// Mathematical model of an [`Origin`].
pub enum OriginModel {
    Registry,
    VersionControl(VcsOriginModel),
    LocalPath,
    OtherRemote { url: Seq<char> },
}

impl View for Origin {
    type V = OriginModel;

    open spec fn view(&self) -> OriginModel {
        match self {
            Origin::Registry => OriginModel::Registry,
            Origin::VersionControl(vcs) => OriginModel::VersionControl(vcs@),
            Origin::LocalPath => OriginModel::LocalPath,
            Origin::OtherRemote { url } => OriginModel::OtherRemote { url: url@ },
        }
    }
}

/// One package of the resolved dependency graph.
#[derive(Clone, Debug)]
pub struct ResolvedDependency {
    /// The package name.
    pub name: String,
    /// The resolved version, in its canonical text form.
    pub version: String,
    /// Where the package comes from.
    pub origin: Origin,
    /// The content digest recorded for the package, if any.
    pub checksum: Option<String>,
}

/// Mathematical model of a [`ResolvedDependency`].
pub struct DependencyModel {
    pub name: Seq<char>,
    pub version: Seq<char>,
    pub origin: OriginModel,
    pub checksum: Option<Seq<char>>,
}

impl View for ResolvedDependency {
    type V = DependencyModel;

    open spec fn view(&self) -> DependencyModel {
        DependencyModel {
            name: self.name@,
            version: self.version@,
            origin: self.origin@,
            checksum: text_of(self.checksum),
        }
    }
}

} // verus!
