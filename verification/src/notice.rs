//! What the synthesizer tells the user when it falls back on a default.

use vstd::prelude::*;
use vstd::string::*;

verus! {

/// A remark on a default that was used; none of them stops the synthesis.
#[derive(Clone, Copy, Debug, PartialEq, Eq, Structural)]
pub enum Notice {
    /// The project's name holds an underscore.
    UnderscoreInName,
    /// No description is set; the name serves as summary.
    MissingDescription,
    /// No homepage is set; the repository is tried.
    MissingHomepage,
    /// No license is set; the license file is tried.
    MissingLicense,
    /// No license file is set either.
    MissingLicenseFile,
    /// The closed license is assumed.
    AssumingClosedLicense,
}

/// The marker of a project that grants no license.
pub open spec fn closed_license() -> Seq<char> {
    "CLOSED"@
}

/// The sentence that a notice is shown as.
pub open spec fn notice_text(notice: Notice) -> Seq<char> {
    match notice {
        Notice::UnderscoreInName => "Project name contains an underscore"@,
        Notice::MissingDescription => "No 'description' field set in your Cargo.toml, using 'name' field"@,
        Notice::MissingHomepage => "No 'homepage' field set in your Cargo.toml, trying 'repository' field"@,
        Notice::MissingLicense => "No 'license' field set in your Cargo.toml, trying 'license-file' field"@,
        Notice::MissingLicenseFile => "No 'license-file' field set in your Cargo.toml"@,
        Notice::AssumingClosedLicense => "Assuming "@ + closed_license() + " license"@,
    }
}

impl Notice {
    /// The sentence to show for this notice.
    pub fn message(&self) -> (out: String)
        ensures
            out@ == notice_text(*self),
    {
        match self {
            Notice::UnderscoreInName => "Project name contains an underscore".to_string(),
            Notice::MissingDescription => "No 'description' field set in your Cargo.toml, using 'name' field".to_string(),
            Notice::MissingHomepage => "No 'homepage' field set in your Cargo.toml, trying 'repository' field".to_string(),
            Notice::MissingLicense => "No 'license' field set in your Cargo.toml, trying 'license-file' field".to_string(),
            Notice::MissingLicenseFile => "No 'license-file' field set in your Cargo.toml".to_string(),
            Notice::AssumingClosedLicense => {
                let mut text = "Assuming ".to_string();
                text.append("CLOSED");
                text.append(" license");
                text
            },
        }
    }
}

/// A value together with the notices that its choice gave rise to.
#[derive(Clone, Debug)]
pub struct Noted {
    pub value: String,
    pub notices: Vec<Notice>,
}

/// Mathematical model of a [`Noted`].
pub struct NotedModel {
    pub value: Seq<char>,
    pub notices: Seq<Notice>,
}

impl View for Noted {
    type V = NotedModel;

    open spec fn view(&self) -> NotedModel {
        NotedModel { value: self.value@, notices: self.notices@ }
    }
}

} // verus!
