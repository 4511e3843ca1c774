//! What makes a synthesis fail.

use vstd::prelude::*;

verus! {

/// A field of the project's metadata record.
#[derive(Clone, Copy, Debug, PartialEq, Eq, Structural)]
pub enum MetadataField {
    Name,
    Version,
    Repository,
}

/// A condition that ends the synthesis without a descriptor.
#[derive(Clone, Debug, PartialEq, Eq)]
pub enum SynthesisError {
    /// A version-control dependency names an abbreviated commit and the
    /// resolver recorded no exact one, so no reproducible pin exists.
    UnresolvablePin { dependency: String },
    /// The metadata record lacks a field that the recipe cannot do without.
    MissingMetadataField(MetadataField),
    /// The version in the metadata record is not a semantic version.
    InvalidVersion,
    /// The project directory does not lie below the workspace root.
    AmbiguousRepoLocation,
}

/// Mathematical model of a [`SynthesisError`].
pub enum ErrorModel {
    UnresolvablePin { dependency: Seq<char> },
    MissingMetadataField(MetadataField),
    InvalidVersion,
    AmbiguousRepoLocation,
}

impl View for SynthesisError {
    type V = ErrorModel;

    open spec fn view(&self) -> ErrorModel {
        match self {
            SynthesisError::UnresolvablePin { dependency } => ErrorModel::UnresolvablePin {
                dependency: dependency@,
            },
            SynthesisError::MissingMetadataField(field) => ErrorModel::MissingMetadataField(*field),
            SynthesisError::InvalidVersion => ErrorModel::InvalidVersion,
            SynthesisError::AmbiguousRepoLocation => ErrorModel::AmbiguousRepoLocation,
        }
    }
}

} // verus!
