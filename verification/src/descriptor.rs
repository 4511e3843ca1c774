//! The recipe descriptor and its synthesis from the resolved graph.

use vstd::prelude::*;
use crate::accumulate::{
    accumulate,
    accumulates,
    decision_models,
    lemma_same_decisions_same_lines,
    locators_of,
    AccumulatedModel,
};
use crate::classify::{classified, classify, Decision, DecisionModel};
use crate::error::{ErrorModel, SynthesisError};
use crate::license::{LicenseDescriptor, LicenseDescriptorModel};
use crate::lines::lemma_ordered_form_unique;
use crate::origin::{text_of, DependencyModel, ResolvedDependency};
use crate::text::{join_lines, joined, texts, wrap_each, wrapped};
use crate::version_pin::{compute, version_pin};

verus! {

/// What is known of the project's own checkout.
#[derive(Clone, Debug)]
pub struct ProjectFacts {
    /// Where the project's repository is fetched from.
    pub uri: String,
    /// The commit that is checked out.
    pub head_revision: String,
    /// Whether that commit carries a tag.
    pub is_tagged_checkout: bool,
}

/// Mathematical model of a [`ProjectFacts`].
pub struct ProjectFactsModel {
    pub uri: Seq<char>,
    pub head_revision: Seq<char>,
    pub is_tagged_checkout: bool,
}

impl View for ProjectFacts {
    type V = ProjectFactsModel;

    open spec fn view(&self) -> ProjectFactsModel {
        ProjectFactsModel {
            uri: self.uri@,
            head_revision: self.head_revision@,
            is_tagged_checkout: self.is_tagged_checkout,
        }
    }
}

/// What the caller chooses.
#[derive(Clone, Copy, Debug, PartialEq, Eq, Structural)]
pub struct SynthesisOptions {
    /// Pin every repository to the exact commit that the resolver recorded.
    pub reproducible: bool,
    /// Spell the version override in the legacy syntax.
    pub legacy_override_syntax: bool,
}

/// Everything that a recipe says beyond its header.
#[derive(Clone, Debug)]
pub struct RecipeDescriptor {
    /// Where to fetch each external dependency: sorted, each once.
    pub fetch_locators: Vec<String>,
    /// Checksum declarations and pin lines: sorted, each once.
    pub auxiliary_lines: Vec<String>,
    /// The license expression in the syntax of the recipe.
    pub license_expression: String,
    /// One file reference for each license identifier, in their order.
    pub license_file_refs: Vec<String>,
    /// What is appended to the version, if anything.
    pub version_pin_suffix: Option<String>,
}

/// Mathematical model of a [`RecipeDescriptor`].
pub struct RecipeDescriptorModel {
    pub fetch_locators: Seq<Seq<char>>,
    pub auxiliary_lines: Seq<Seq<char>>,
    pub license_expression: Seq<char>,
    pub license_file_refs: Seq<Seq<char>>,
    pub version_pin_suffix: Option<Seq<char>>,
}

impl View for RecipeDescriptor {
    type V = RecipeDescriptorModel;

    open spec fn view(&self) -> RecipeDescriptorModel {
        RecipeDescriptorModel {
            fetch_locators: texts(self.fetch_locators@),
            auxiliary_lines: texts(self.auxiliary_lines@),
            license_expression: self.license_expression@,
            license_file_refs: texts(self.license_file_refs@),
            version_pin_suffix: text_of(self.version_pin_suffix),
        }
    }
}

/// The models of a sequence of dependencies, in the same order.
pub open spec fn dependency_models(deps: Seq<ResolvedDependency>) -> Seq<DependencyModel> {
    deps.map_values(|d: ResolvedDependency| d@)
}

/// The decisions on all dependencies, in their order, or the error of the
/// first dependency that has one.
pub open spec fn classified_all(
    deps: Seq<DependencyModel>,
    members: Seq<Seq<char>>,
    reproducible: bool,
) -> Result<Seq<DecisionModel>, ErrorModel>
    decreases deps.len(),
{
    if deps.len() == 0 {
        Ok(Seq::empty())
    } else {
        match classified_all(deps.drop_last(), members, reproducible) {
            Err(e) => Err(e),
            Ok(decisions) => match classified(deps.last(), members, reproducible) {
                Ok(decision) => Ok(decisions.push(decision)),
                Err(e) => Err(e),
            },
        }
    }
}

/// `out` is the descriptor of the given graph and project: its two ordered
/// sets are what the decisions on the dependencies accumulate to, its
/// license part is the one given, and its suffix is the version pin of the
/// checkout.
pub open spec fn describes(
    deps: Seq<DependencyModel>,
    members: Seq<Seq<char>>,
    license: LicenseDescriptorModel,
    facts: ProjectFactsModel,
    options: SynthesisOptions,
    out: RecipeDescriptorModel,
) -> bool {
    &&& classified_all(deps, members, options.reproducible) is Ok
    &&& accumulates(
        classified_all(deps, members, options.reproducible)->Ok_0,
        AccumulatedModel {
            fetch_locators: out.fetch_locators,
            auxiliary_lines: out.auxiliary_lines,
        },
    )
    &&& out.license_expression == license.normalized_expression
    &&& out.license_file_refs == license.file_refs
    &&& out.version_pin_suffix == version_pin(
        facts.is_tagged_checkout,
        facts.head_revision,
        options.legacy_override_syntax,
    )
}

/// Classifies every dependency, in order, and stops at the first that
/// cannot be pinned.
pub fn classify_all(deps: &Vec<ResolvedDependency>, members: &Vec<String>, reproducible: bool) -> (out:
    Result<Vec<Decision>, SynthesisError>)
    ensures
        match classified_all(dependency_models(deps@), texts(members@), reproducible) {
            Ok(decisions) => out is Ok && decision_models(out->Ok_0@) == decisions,
            Err(e) => out is Err && out->Err_0@ == e,
        },
{
    let ghost models = dependency_models(deps@);
    let mut decisions: Vec<Decision> = Vec::new();
    let mut i: usize = 0;
    proof {
        assert(decision_models(decisions@) =~= Seq::empty());
    }
    while i < deps.len()
        invariant
            i <= deps.len(),
            models == dependency_models(deps@),
            classified_all(models.take(i as int), texts(members@), reproducible) == Ok::<
                Seq<DecisionModel>,
                ErrorModel,
            >(decision_models(decisions@)),
        decreases deps.len() - i,
    {
        proof {
            assert(models.take(i + 1).drop_last() =~= models.take(i as int));
            assert(models.take(i + 1).last() == deps@[i as int]@);
        }
        let ghost earlier = decision_models(decisions@);
        match classify(&deps[i], members, reproducible) {
            Ok(decision) => {
                decisions.push(decision);
                proof {
                    assert(decision_models(decisions@) =~= earlier.push(decision@));
                }
            },
            Err(e) => {
                proof {
                    lemma_failure_stays(models, i + 1, texts(members@), reproducible);
                }
                return Err(e);
            },
        }
        i += 1;
    }
    proof {
        assert(models.take(i as int) =~= models);
    }
    Ok(decisions)
}

/// An error among the first `n` dependencies is the error of the whole
/// sequence.
pub proof fn lemma_failure_stays(
    deps: Seq<DependencyModel>,
    n: int,
    members: Seq<Seq<char>>,
    reproducible: bool,
)
    requires
        0 <= n <= deps.len(),
        classified_all(deps.take(n), members, reproducible) is Err,
    ensures
        classified_all(deps, members, reproducible) == classified_all(
            deps.take(n),
            members,
            reproducible,
        ),
    decreases deps.len() - n,
{
    if n == deps.len() {
        assert(deps.take(n) =~= deps);
    } else {
        assert(deps.take(n + 1).drop_last() =~= deps.take(n));
        lemma_failure_stays(deps, n + 1, members, reproducible);
    }
}

/// Where all dependencies can be classified, there is one decision for
/// each, in order; where not, one of them has an error.
pub proof fn lemma_classified_all_pointwise(
    deps: Seq<DependencyModel>,
    members: Seq<Seq<char>>,
    reproducible: bool,
)
    ensures
        match classified_all(deps, members, reproducible) {
            Ok(decisions) => {
                &&& decisions.len() == deps.len()
                &&& forall|i: int|
                    0 <= i < deps.len() ==> classified(#[trigger] deps[i], members, reproducible)
                        == Ok::<DecisionModel, ErrorModel>(decisions[i])
            },
            Err(e) => exists|i: int|
                0 <= i < deps.len() && classified(#[trigger] deps[i], members, reproducible) == Err::<
                    DecisionModel,
                    ErrorModel,
                >(e),
        },
    decreases deps.len(),
{
    if deps.len() > 0 {
        let shorter = deps.drop_last();
        lemma_classified_all_pointwise(shorter, members, reproducible);
        match classified_all(shorter, members, reproducible) {
            Ok(decisions) => {
                match classified(deps.last(), members, reproducible) {
                    Ok(decision) => {
                        let all = decisions.push(decision);
                        assert forall|i: int| 0 <= i < deps.len() implies classified(
                            #[trigger] deps[i],
                            members,
                            reproducible,
                        ) == Ok::<DecisionModel, ErrorModel>(all[i]) by {
                            if i < shorter.len() {
                                assert(deps[i] == shorter[i]);
                            }
                        }
                    },
                    Err(e) => {
                        assert(deps[deps.len() - 1] == deps.last());
                    },
                }
            },
            Err(e) => {
                let i = choose|i: int|
                    0 <= i < shorter.len() && classified(
                        #[trigger] shorter[i],
                        members,
                        reproducible,
                    ) == Err::<DecisionModel, ErrorModel>(e);
                assert(deps[i] == shorter[i]);
            },
        }
    }
}

impl RecipeDescriptor {
    /// Synthesizes the descriptor of a project from its resolved
    /// dependencies, the names of the workspace's members, its license part
    /// and the facts of its checkout.
    ///
    /// Fails only where some repository cannot be pinned, with the error of
    /// the first such dependency.
    pub fn synthesize(
        deps: &Vec<ResolvedDependency>,
        members: &Vec<String>,
        license: LicenseDescriptor,
        facts: &ProjectFacts,
        options: SynthesisOptions,
    ) -> (out: Result<RecipeDescriptor, SynthesisError>)
        ensures
            match classified_all(dependency_models(deps@), texts(members@), options.reproducible) {
                Ok(_) => out is Ok && describes(
                    dependency_models(deps@),
                    texts(members@),
                    license@,
                    facts@,
                    options,
                    out->Ok_0@,
                ),
                Err(e) => out is Err && out->Err_0@ == e,
            },
    {
        let decisions = match classify_all(deps, members, options.reproducible) {
            Ok(decisions) => decisions,
            Err(e) => {
                return Err(e);
            },
        };
        let lines = accumulate(&decisions);
        let suffix = compute(
            facts.is_tagged_checkout,
            facts.head_revision.as_str(),
            options.legacy_override_syntax,
        );
        Ok(
            RecipeDescriptor {
                fetch_locators: lines.fetch_locators,
                auxiliary_lines: lines.auxiliary_lines,
                license_expression: license.normalized_expression,
                license_file_refs: license.file_refs,
                version_pin_suffix: suffix,
            },
        )
    }

    /// The fetch locators as the recipe lists them: each on a line of its
    /// own, indented, with a continuation mark.
    pub fn fetch_locators_text(&self) -> (out: String)
        ensures
            out@ == wrapped(self@.fetch_locators, "    "@, " \\\n"@),
    {
        wrap_each(&self.fetch_locators, "    ", " \\\n")
    }

    /// The auxiliary lines as the recipe lists them: one below the other.
    pub fn auxiliary_text(&self) -> (out: String)
        ensures
            out@ == joined(self@.auxiliary_lines, "\n"@),
    {
        join_lines(&self.auxiliary_lines, "\n")
    }

    /// The license file references as the recipe lists them: each indented.
    pub fn license_files_text(&self) -> (out: String)
        ensures
            out@ == wrapped(self@.license_file_refs, "    "@, ""@),
    {
        wrap_each(&self.license_file_refs, "    ", "")
    }

    /// The version pin suffix as the recipe holds it: empty where there is
    /// none.
    pub fn version_pin_text(&self) -> (out: String)
        ensures
            out@ == match self@.version_pin_suffix {
                Some(suffix) => suffix,
                None => Seq::<char>::empty(),
            },
    {
        match &self.version_pin_suffix {
            Some(suffix) => suffix.clone(),
            None => String::new(),
        }
    }
}

/// A dependency that bears the name of a workspace member is skipped,
/// whatever its origin, and so contributes no fetch locator.
pub proof fn law_workspace_member_skipped(
    dep: DependencyModel,
    members: Seq<Seq<char>>,
    reproducible: bool,
)
    requires
        members.contains(dep.name),
    ensures
        classified(dep, members, reproducible) == Ok::<DecisionModel, ErrorModel>(
            DecisionModel::Skip,
        ),
        DecisionModel::Skip.locator() is None,
{
}

/// A dependency that lies at a local path is skipped, and so contributes
/// no fetch locator.
pub proof fn law_local_path_skipped(
    dep: DependencyModel,
    members: Seq<Seq<char>>,
    reproducible: bool,
)
    requires
        dep.origin is LocalPath,
    ensures
        classified(dep, members, reproducible) == Ok::<DecisionModel, ErrorModel>(
            DecisionModel::Skip,
        ),
        DecisionModel::Skip.locator() is None,
{
}

/// Every fetch locator of a descriptor comes from a dependency that is
/// neither a member of the workspace nor at a local path: members and
/// local paths put nothing into the fetch locators.
pub proof fn law_fetch_locators_are_external(
    deps: Seq<DependencyModel>,
    members: Seq<Seq<char>>,
    license: LicenseDescriptorModel,
    facts: ProjectFactsModel,
    options: SynthesisOptions,
    out: RecipeDescriptorModel,
    locator: Seq<char>,
)
    requires
        describes(deps, members, license, facts, options, out),
        out.fetch_locators.contains(locator),
    ensures
        exists|i: int|
            {
                &&& 0 <= i < deps.len()
                &&& !members.contains((#[trigger] deps[i]).name)
                &&& !(deps[i].origin is LocalPath)
                &&& classified(deps[i], members, options.reproducible) is Ok
                &&& classified(deps[i], members, options.reproducible)->Ok_0.locator() == Some(
                    locator,
                )
            },
{
    let decisions = classified_all(deps, members, options.reproducible)->Ok_0;
    lemma_classified_all_pointwise(deps, members, options.reproducible);
    assert(out.fetch_locators.to_set().contains(locator));
    assert(locators_of(decisions).contains(locator));
    let i = choose|i: int|
        0 <= i < decisions.len() && (#[trigger] decisions[i]).locator() == Some(locator);
    assert(classified(deps[i], members, options.reproducible) == Ok::<DecisionModel, ErrorModel>(
        decisions[i],
    ));
}

/// The descriptor does not depend on the order in which the resolver
/// lists the dependencies: two orderings of the same dependencies are
/// described by the same descriptor.
pub proof fn law_synthesis_order_independent(
    deps_a: Seq<DependencyModel>,
    deps_b: Seq<DependencyModel>,
    members: Seq<Seq<char>>,
    license: LicenseDescriptorModel,
    facts: ProjectFactsModel,
    options: SynthesisOptions,
    out_a: RecipeDescriptorModel,
    out_b: RecipeDescriptorModel,
)
    requires
        deps_a.to_multiset() == deps_b.to_multiset(),
        describes(deps_a, members, license, facts, options, out_a),
        describes(deps_b, members, license, facts, options, out_b),
    ensures
        out_a == out_b,
{
    let a = classified_all(deps_a, members, options.reproducible)->Ok_0;
    let b = classified_all(deps_b, members, options.reproducible)->Ok_0;
    lemma_classified_all_pointwise(deps_a, members, options.reproducible);
    lemma_classified_all_pointwise(deps_b, members, options.reproducible);
    deps_a.to_multiset_ensures();
    deps_b.to_multiset_ensures();
    assert forall|d: DecisionModel| a.contains(d) <==> b.contains(d) by {
        if a.contains(d) {
            let i = choose|i: int| 0 <= i < a.len() && a[i] == d;
            assert(deps_a.contains(deps_a[i]));
            assert(deps_a.to_multiset().count(deps_a[i]) > 0);
            assert(deps_b.contains(deps_a[i]));
            let j = choose|j: int| 0 <= j < deps_b.len() && deps_b[j] == deps_a[i];
            assert(classified(deps_b[j], members, options.reproducible) == Ok::<
                DecisionModel,
                ErrorModel,
            >(b[j]));
            assert(b[j] == d);
        }
        if b.contains(d) {
            let i = choose|i: int| 0 <= i < b.len() && b[i] == d;
            assert(deps_b.contains(deps_b[i]));
            assert(deps_b.to_multiset().count(deps_b[i]) > 0);
            assert(deps_a.contains(deps_b[i]));
            let j = choose|j: int| 0 <= j < deps_a.len() && deps_a[j] == deps_b[i];
            assert(classified(deps_a[j], members, options.reproducible) == Ok::<
                DecisionModel,
                ErrorModel,
            >(a[j]));
            assert(a[j] == d);
        }
    }
    lemma_same_decisions_same_lines(a, b);
    lemma_ordered_form_unique(out_a.fetch_locators, out_b.fetch_locators);
    lemma_ordered_form_unique(out_a.auxiliary_lines, out_b.auxiliary_lines);
}

} // verus!
