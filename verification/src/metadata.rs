//! The project's own metadata: what the recipe's header is made of.

use vstd::prelude::*;
use vstd::string::*;
use crate::error::{ErrorModel, MetadataField, SynthesisError};
use crate::notice::{Notice, Noted, NotedModel};
use crate::origin::text_of;
use crate::text::{chars_of, trim, trimmed};

verus! {

/// The metadata of a project as its manifest gives it: every field may be
/// absent.
#[derive(Clone, Debug)]
pub struct MetadataRecord {
    pub name: Option<String>,
    pub version: Option<String>,
    pub description: Option<String>,
    pub homepage: Option<String>,
    pub repository: Option<String>,
    pub license: Option<String>,
    pub license_file: Option<String>,
}

/// Mathematical model of a [`MetadataRecord`].
pub struct MetadataRecordModel {
    pub name: Option<Seq<char>>,
    pub version: Option<Seq<char>>,
    pub description: Option<Seq<char>>,
    pub homepage: Option<Seq<char>>,
    pub repository: Option<Seq<char>>,
    pub license: Option<Seq<char>>,
    pub license_file: Option<Seq<char>>,
}

impl View for MetadataRecord {
    type V = MetadataRecordModel;

    open spec fn view(&self) -> MetadataRecordModel {
        MetadataRecordModel {
            name: text_of(self.name),
            version: text_of(self.version),
            description: text_of(self.description),
            homepage: text_of(self.homepage),
            repository: text_of(self.repository),
            license: text_of(self.license),
            license_file: text_of(self.license_file),
        }
    }
}

/// The metadata of a project that has a name and a version.
#[derive(Clone, Debug)]
pub struct Metadata {
    pub name: String,
    /// The version in canonical form.
    pub version: String,
    pub description: Option<String>,
    pub homepage: Option<String>,
    pub repository: Option<String>,
    pub license: Option<String>,
    pub license_file: Option<String>,
}

/// Mathematical model of a [`Metadata`].
pub struct MetadataModel {
    pub name: Seq<char>,
    pub version: Seq<char>,
    pub description: Option<Seq<char>>,
    pub homepage: Option<Seq<char>>,
    pub repository: Option<Seq<char>>,
    pub license: Option<Seq<char>>,
    pub license_file: Option<Seq<char>>,
}

impl View for Metadata {
    type V = MetadataModel;

    open spec fn view(&self) -> MetadataModel {
        MetadataModel {
            name: self.name@,
            version: self.version@,
            description: text_of(self.description),
            homepage: text_of(self.homepage),
            repository: text_of(self.repository),
            license: text_of(self.license),
            license_file: text_of(self.license_file),
        }
    }
}

/// The canonical form of the semantic version that `text` spells, or
/// `None` where `text` spells none: what `semver::Version::parse` makes of
/// the text, written out again.
pub uninterp spec fn semver_canonical(text: Seq<char>) -> Option<Seq<char>>;

/// Parses `text` with `semver::Version::parse` and writes the version out
/// again with its `Display`. Both depend on the text alone. Nothing more is
/// claimed of the result than that it is what that parser makes of the
/// text; this is taken on trust.
#[verifier::external_body]
fn canonical_version(text: &str) -> (out: Option<String>)
    ensures
        text_of(out) == semver_canonical(text@),
{
    match semver::Version::parse(text) {
        Ok(version) => Some(version.to_string()),
        Err(_) => None,
    }
}

/// The metadata that a record amounts to, where `canonical` is the
/// canonical form of the record's version, if that has one. The name is
/// asked for first, then the version.
pub open spec fn assembled(record: MetadataRecordModel, canonical: Option<Seq<char>>) -> Result<
    MetadataModel,
    ErrorModel,
> {
    match record.name {
        None => Err(ErrorModel::MissingMetadataField(MetadataField::Name)),
        Some(name) => match record.version {
            None => Err(ErrorModel::MissingMetadataField(MetadataField::Version)),
            Some(_) => match canonical {
                None => Err(ErrorModel::InvalidVersion),
                Some(version) => Ok(
                    MetadataModel {
                        name,
                        version,
                        description: record.description,
                        homepage: record.homepage,
                        repository: record.repository,
                        license: record.license,
                        license_file: record.license_file,
                    },
                ),
            },
        },
    }
}

/// The canonical form of the version of a record, if it has one.
pub open spec fn canonical_of(record: MetadataRecordModel) -> Option<Seq<char>> {
    match record.version {
        Some(version) => semver_canonical(version),
        None => None,
    }
}

impl Metadata {
    /// Makes the metadata from a record and from the canonical form of the
    /// record's version.
    pub fn assemble(record: MetadataRecord, canonical: Option<String>) -> (out: Result<
        Metadata,
        SynthesisError,
    >)
        ensures
            match assembled(record@, text_of(canonical)) {
                Ok(metadata) => out is Ok && out->Ok_0@ == metadata,
                Err(e) => out is Err && out->Err_0@ == e,
            },
    {
        let name = match record.name {
            Some(name) => name,
            None => {
                return Err(SynthesisError::MissingMetadataField(MetadataField::Name));
            },
        };
        if record.version.is_none() {
            return Err(SynthesisError::MissingMetadataField(MetadataField::Version));
        }
        let version = match canonical {
            Some(version) => version,
            None => {
                return Err(SynthesisError::InvalidVersion);
            },
        };
        Ok(
            Metadata {
                name,
                version,
                description: record.description,
                homepage: record.homepage,
                repository: record.repository,
                license: record.license,
                license_file: record.license_file,
            },
        )
    }

    /// Makes the metadata from a record: fails where the name or the
    /// version is absent, or the version is no semantic version.
    pub fn load(record: MetadataRecord) -> (out: Result<Metadata, SynthesisError>)
        ensures
            match assembled(record@, canonical_of(record@)) {
                Ok(metadata) => out is Ok && out->Ok_0@ == metadata,
                Err(e) => out is Err && out->Err_0@ == e,
            },
    {
        let canonical = match &record.version {
            Some(version) => canonical_version(version.as_str()),
            None => None,
        };
        Metadata::assemble(record, canonical)
    }

    /// The notices that the name gives rise to.
    pub fn name_notices(&self) -> (out: Vec<Notice>)
        ensures
            out@ == name_notices_of(self@.name),
    {
        let chars = chars_of(self.name.as_str());
        let mut notices: Vec<Notice> = Vec::new();
        let mut i: usize = 0;
        while i < chars.len()
            invariant
                i <= chars.len(),
                chars@ == self.name@,
                notices@ == Seq::<Notice>::empty(),
                forall|j: int| 0 <= j < i ==> chars@[j] != '_',
            decreases chars.len() - i,
        {
            if chars[i] == '_' {
                notices.push(Notice::UnderscoreInName);
                proof {
                    assert(self@.name.contains('_'));
                    assert(notices@ =~= seq![Notice::UnderscoreInName]);
                }
                return notices;
            }
            i += 1;
        }
        notices
    }

    /// The one-line summary of the project.
    pub fn summary(&self) -> (out: Noted)
        ensures
            out@ == summary_of(self@),
    {
        let mut notices: Vec<Notice> = Vec::new();
        match &self.description {
            Some(description) => {
                proof {
                    assert(notices@ =~= Seq::empty());
                }
                Noted { value: description.clone(), notices }
            },
            None => {
                notices.push(Notice::MissingDescription);
                proof {
                    assert(notices@ =~= seq![Notice::MissingDescription]);
                }
                Noted { value: self.name.clone(), notices }
            },
        }
    }

    /// The home page of the project.
    pub fn homepage(&self) -> (out: Result<Noted, SynthesisError>)
        ensures
            match homepage_of(self@) {
                Ok(noted) => out is Ok && out->Ok_0@ == noted,
                Err(e) => out is Err && out->Err_0@ == e,
            },
    {
        let mut notices: Vec<Notice> = Vec::new();
        match &self.homepage {
            Some(homepage) => {
                proof {
                    assert(notices@ =~= Seq::empty());
                }
                Ok(Noted { value: trim(homepage.as_str()), notices })
            },
            None => {
                notices.push(Notice::MissingHomepage);
                match &self.repository {
                    Some(repository) => {
                        proof {
                            assert(notices@ =~= seq![Notice::MissingHomepage]);
                        }
                        Ok(Noted { value: trim(repository.as_str()), notices })
                    },
                    None => Err(SynthesisError::MissingMetadataField(MetadataField::Repository)),
                }
            },
        }
    }

    /// The name of the file that the recipe is written to.
    pub fn recipe_file_name(&self) -> (out: String)
        ensures
            out@ == recipe_file_name_of(self@.name, self@.version),
    {
        let mut file = self.name.clone();
        file.append("_");
        file.append(self.version.as_str());
        file.append(".bb");
        file
    }
}

/// An underscore in the name is remarked on.
pub open spec fn name_notices_of(name: Seq<char>) -> Seq<Notice> {
    if name.contains('_') {
        seq![Notice::UnderscoreInName]
    } else {
        Seq::empty()
    }
}

/// The summary is the description, or the name where none is set.
pub open spec fn summary_of(metadata: MetadataModel) -> NotedModel {
    match metadata.description {
        Some(description) => NotedModel { value: description, notices: Seq::empty() },
        None => NotedModel { value: metadata.name, notices: seq![Notice::MissingDescription] },
    }
}

/// The home page is the homepage field, or the repository where none is
/// set, without surrounding white space; a project with neither has none.
pub open spec fn homepage_of(metadata: MetadataModel) -> Result<NotedModel, ErrorModel> {
    match metadata.homepage {
        Some(homepage) => Ok(NotedModel { value: trimmed(homepage), notices: Seq::empty() }),
        None => match metadata.repository {
            Some(repository) => Ok(
                NotedModel { value: trimmed(repository), notices: seq![Notice::MissingHomepage] },
            ),
            None => Err(ErrorModel::MissingMetadataField(MetadataField::Repository)),
        },
    }
}

/// The recipe's file is named after the project and its version.
pub open spec fn recipe_file_name_of(name: Seq<char>, version: Seq<char>) -> Seq<char> {
    name + "_"@ + version + ".bb"@
}

} // verus!
