//! The license of the project: its expression and its files.

use vstd::prelude::*;
use vstd::string::*;
use crate::notice::{closed_license, Notice, Noted, NotedModel};
use crate::origin::text_of;
use crate::text::{
    join_with,
    joined,
    lemma_split_count,
    lemma_split_nonempty,
    split,
    split_on,
    texts,
    trim,
    trimmed,
};

verus! {

/// The character that separates the identifiers of a license expression.
pub open spec fn identifier_separator() -> char {
    '/'
}

/// What joins the identifiers of a normalized license expression.
pub open spec fn alternative_separator() -> Seq<char> {
    " | "@
}

/// The license identifiers of an expression, as written, in order.
pub open spec fn identifiers(expression: Seq<char>) -> Seq<Seq<char>> {
    split(expression, identifier_separator())
}

/// The expression in the syntax of the recipe: the identifiers, each
/// without surrounding white space, as alternatives.
pub open spec fn normalized(expression: Seq<char>) -> Seq<char> {
    joined(
        identifiers(expression).map_values(|id: Seq<char>| trimmed(id)),
        alternative_separator(),
    )
}

/// A question to whoever knows the project's files: where is the text of
/// this license?
#[derive(Clone, Debug)]
pub struct LicenseRequest {
    /// The identifier, as written in the expression.
    pub identifier: String,
    /// Whether it is the project's only license, so that a file with a
    /// general name may hold its text.
    pub single: bool,
}

/// Mathematical model of a [`LicenseRequest`].
pub struct LicenseRequestModel {
    pub identifier: Seq<char>,
    pub single: bool,
}

impl View for LicenseRequest {
    type V = LicenseRequestModel;

    open spec fn view(&self) -> LicenseRequestModel {
        LicenseRequestModel { identifier: self.identifier@, single: self.single }
    }
}

/// The models of a sequence of requests, in the same order.
pub open spec fn request_models(requests: Seq<LicenseRequest>) -> Seq<LicenseRequestModel> {
    requests.map_values(|r: LicenseRequest| r@)
}

/// The requests that an expression gives rise to: one for each identifier,
/// in order, each marked single exactly if there is only one.
pub open spec fn requests_for(expression: Seq<char>) -> Seq<LicenseRequestModel> {
    let ids = identifiers(expression);
    ids.map_values(|id: Seq<char>| LicenseRequestModel { identifier: id, single: ids.len() == 1 })
}

/// The license part of a recipe.
#[derive(Clone, Debug)]
pub struct LicenseDescriptor {
    /// The license expression in the syntax of the recipe.
    pub normalized_expression: String,
    /// One file reference for each identifier, in the order of the
    /// identifiers.
    pub file_refs: Vec<String>,
}

/// Mathematical model of a [`LicenseDescriptor`].
pub struct LicenseDescriptorModel {
    pub normalized_expression: Seq<char>,
    pub file_refs: Seq<Seq<char>>,
}

impl View for LicenseDescriptor {
    type V = LicenseDescriptorModel;

    open spec fn view(&self) -> LicenseDescriptorModel {
        LicenseDescriptorModel {
            normalized_expression: self.normalized_expression@,
            file_refs: texts(self.file_refs@),
        }
    }
}

/// The license expression to use and the notices on how it was found: the
/// license if one is set, else the license file, else the closed license.
pub open spec fn license_or_default(
    license: Option<Seq<char>>,
    license_file: Option<Seq<char>>,
) -> NotedModel {
    match license {
        Some(expression) => NotedModel { value: expression, notices: Seq::empty() },
        None => match license_file {
            Some(file) => NotedModel { value: file, notices: seq![Notice::MissingLicense] },
            None => NotedModel {
                value: closed_license(),
                notices: seq![
                    Notice::MissingLicense,
                    Notice::MissingLicenseFile,
                    Notice::AssumingClosedLicense,
                ],
            },
        },
    }
}

/// Picks the license expression of the project from its metadata.
pub fn effective_license(license: &Option<String>, license_file: &Option<String>) -> (out: Noted)
    ensures
        out@ == license_or_default(text_of(*license), text_of(*license_file)),
{
    let mut notices: Vec<Notice> = Vec::new();
    match license {
        Some(expression) => {
            proof {
                assert(notices@ =~= Seq::empty());
            }
            Noted { value: expression.clone(), notices }
        },
        None => {
            notices.push(Notice::MissingLicense);
            match license_file {
                Some(file) => {
                    proof {
                        assert(notices@ =~= seq![Notice::MissingLicense]);
                    }
                    Noted { value: file.clone(), notices }
                },
                None => {
                    notices.push(Notice::MissingLicenseFile);
                    notices.push(Notice::AssumingClosedLicense);
                    proof {
                        assert(notices@ =~= seq![
                            Notice::MissingLicense,
                            Notice::MissingLicenseFile,
                            Notice::AssumingClosedLicense,
                        ]);
                    }
                    Noted { value: "CLOSED".to_string(), notices }
                },
            }
        },
    }
}

/// Splits a license expression into its identifiers.
pub fn split_identifiers(expression: &str) -> (out: Vec<String>)
    ensures
        texts(out@) == identifiers(expression@),
        out.len() >= 1,
{
    proof {
        lemma_split_nonempty(expression@, identifier_separator());
    }
    split_on(expression, '/')
}

/// Writes a license expression in the syntax of the recipe.
pub fn normalize(expression: &str) -> (out: String)
    ensures
        out@ == normalized(expression@),
{
    let ids = split_identifiers(expression);
    let mut clean: Vec<String> = Vec::new();
    let mut i: usize = 0;
    while i < ids.len()
        invariant
            i <= ids.len(),
            clean.len() == i,
            texts(clean@) == texts(ids@).take(i as int).map_values(|id: Seq<char>| trimmed(id)),
        decreases ids.len() - i,
    {
        let ghost earlier = texts(clean@);
        clean.push(trim(ids[i].as_str()));
        proof {
            let all = texts(ids@);
            let expected = all.take(i + 1).map_values(|id: Seq<char>| trimmed(id));
            assert(all.len() == ids.len());
            assert(texts(clean@).len() == expected.len());
            assert forall|j: int| 0 <= j < expected.len() implies texts(clean@)[j] == expected[j] by {
                if j < i {
                    assert(texts(clean@)[j] == earlier[j]);
                    assert(all.take(i as int)[j] == all.take(i + 1)[j]);
                } else {
                    assert(all[i as int] == ids@[i as int]@);
                }
            }
            assert(texts(clean@) =~= expected);
        }
        i += 1;
    }
    proof {
        assert(texts(ids@).take(i as int) =~= texts(ids@));
    }
    join_with(&clean, " | ")
}

/// Lists the license files to ask for, one for each identifier of the
/// expression.
pub fn license_requests(expression: &str) -> (out: Vec<LicenseRequest>)
    ensures
        request_models(out@) == requests_for(expression@),
{
    let ids = split_identifiers(expression);
    let single = ids.len() == 1;
    let mut requests: Vec<LicenseRequest> = Vec::new();
    let mut i: usize = 0;
    while i < ids.len()
        invariant
            i <= ids.len(),
            texts(ids@) == identifiers(expression@),
            single == (ids.len() == 1),
            requests.len() == i,
            request_models(requests@) == requests_for(expression@).take(i as int),
        decreases ids.len() - i,
    {
        let ghost earlier = request_models(requests@);
        requests.push(LicenseRequest { identifier: ids[i].clone(), single });
        proof {
            let all = requests_for(expression@);
            let expected = all.take(i + 1);
            assert(all.len() == ids.len());
            assert(request_models(requests@).len() == expected.len());
            assert forall|j: int| 0 <= j < expected.len() implies request_models(requests@)[j]
                == expected[j] by {
                if j < i {
                    assert(request_models(requests@)[j] == earlier[j]);
                    assert(all.take(i as int)[j] == all[j]);
                } else {
                    assert(texts(ids@)[i as int] == ids@[i as int]@);
                }
            }
            assert(request_models(requests@) =~= expected);
        }
        i += 1;
    }
    proof {
        assert(requests_for(expression@).take(i as int) =~= requests_for(expression@));
    }
    requests
}

/// What [`build`] returns: the descriptor, if there is one file reference
/// for each identifier of the expression.
pub open spec fn built(expression: Seq<char>, files: Seq<Seq<char>>) -> Option<
    LicenseDescriptorModel,
> {
    if files.len() == identifiers(expression).len() {
        Some(
            LicenseDescriptorModel {
                normalized_expression: normalized(expression),
                file_refs: files,
            },
        )
    } else {
        None
    }
}

/// Builds the license part of the recipe from the expression and from the
/// answers to its requests, given in the order of the requests.
pub fn build(expression: &str, files: Vec<String>) -> (out: Option<LicenseDescriptor>)
    ensures
        match built(expression@, texts(files@)) {
            Some(descriptor) => out is Some && out->Some_0@ == descriptor,
            None => out is None,
        },
{
    let ids = split_identifiers(expression);
    if files.len() != ids.len() {
        return None;
    }
    Some(LicenseDescriptor { normalized_expression: normalize(expression), file_refs: files })
}

/// A license descriptor holds exactly one file reference for each
/// identifier of its expression, and there is one request for each.
pub proof fn law_one_file_per_identifier(expression: Seq<char>, files: Seq<Seq<char>>)
    ensures
        requests_for(expression).len() == identifiers(expression).len(),
        identifiers(expression).len() >= 1,
        built(expression, files) is Some <==> files.len() == identifiers(expression).len(),
        built(expression, files) is Some ==> built(expression, files)->Some_0.file_refs.len()
            == identifiers(expression).len(),
{
    lemma_split_nonempty(expression, identifier_separator());
}

/// Every request of an expression is marked single exactly if the
/// expression holds one identifier, that is, no separator.
pub proof fn law_single_means_one_identifier(expression: Seq<char>, i: int)
    requires
        0 <= i < requests_for(expression).len(),
    ensures
        requests_for(expression)[i].single <==> !expression.contains(identifier_separator()),
        requests_for(expression)[i].identifier == identifiers(expression)[i],
{
    lemma_split_count(expression, identifier_separator());
}

} // verus!
