use cargo_bitbake::descriptor::{
    classify_all, ProjectFacts, RecipeDescriptor, SynthesisOptions,
};
use cargo_bitbake::error::SynthesisError;
use cargo_bitbake::license::{build, LicenseDescriptor};
use cargo_bitbake::origin::{Origin, ReferenceKind, ResolvedDependency, VcsOrigin};

const EXACT: &str = "f1e2d3c4b5a697881726354453627180f1e2d3c4";
const BAR_URL: &str =
    "git://github.com/example/bar.git;protocol=https;nobranch=1;name=bar;destsuffix=bar";

fn names(list: &[&str]) -> Vec<String> {
    list.iter().map(|s| s.to_string()).collect()
}

fn registry(name: &str, version: &str, checksum: Option<&str>) -> ResolvedDependency {
    ResolvedDependency {
        name: name.to_string(),
        version: version.to_string(),
        origin: Origin::Registry,
        checksum: checksum.map(|s| s.to_string()),
    }
}

fn git(name: &str, reference: ReferenceKind, exact: Option<&str>) -> ResolvedDependency {
    ResolvedDependency {
        name: name.to_string(),
        version: "0.2.0".to_string(),
        origin: Origin::VersionControl(VcsOrigin {
            url: format!("https://github.com/example/{}.git", name),
            reference,
            precise_fragment: exact.map(|s| s.to_string()),
        }),
        checksum: None,
    }
}

fn local(name: &str) -> ResolvedDependency {
    ResolvedDependency {
        name: name.to_string(),
        version: "0.1.0".to_string(),
        origin: Origin::LocalPath,
        checksum: None,
    }
}

fn license() -> LicenseDescriptor {
    build(
        "MIT/Apache-2.0",
        names(&["file://LICENSE-MIT;md5=aa \\\n", "file://LICENSE-APACHE;md5=bb \\\n"]),
    )
    .unwrap()
}

fn facts(tagged: bool) -> ProjectFacts {
    ProjectFacts {
        uri: "git://github.com/example/app.git;protocol=https".to_string(),
        head_revision: "a1b2c3d4e5f60000".to_string(),
        is_tagged_checkout: tagged,
    }
}

fn graph() -> Vec<ResolvedDependency> {
    vec![
        local("app"),
        registry("foo", "1.0.0", Some("deadbeef")),
        git("bar", ReferenceKind::Branch("main".to_string()), Some(EXACT)),
    ]
}

#[test]
fn end_to_end() {
    let options = SynthesisOptions { reproducible: true, legacy_override_syntax: false };
    let d = RecipeDescriptor::synthesize(&graph(), &names(&["app"]), license(), &facts(false), options)
        .unwrap();
    assert_eq!(d.fetch_locators, names(&["crate://crates.io/foo/1.0.0", BAR_URL]));
    assert_eq!(
        d.auxiliary_lines,
        vec![
            "EXTRA_OECARGO_PATHS += \"${WORKDIR}/bar\"".to_string(),
            "SRCREV_FORMAT .= \"_bar\"".to_string(),
            format!("SRCREV_bar = \"{}\"", EXACT),
            "SRC_URI[foo-1.0.0.sha256sum] = \"deadbeef\"".to_string(),
        ]
    );
    assert_eq!(d.license_expression, "MIT | Apache-2.0");
    assert_eq!(
        d.license_file_refs,
        names(&["file://LICENSE-MIT;md5=aa \\\n", "file://LICENSE-APACHE;md5=bb \\\n"])
    );
    assert_eq!(d.version_pin_suffix, Some("PV:append = \".AUTOINC+a1b2c3d4e5\"".to_string()));
    let mut sorted = d.auxiliary_lines.clone();
    sorted.sort();
    assert_eq!(d.auxiliary_lines, sorted);
}

#[test]
fn end_to_end_following_the_branch() {
    let options = SynthesisOptions { reproducible: false, legacy_override_syntax: true };
    let d = RecipeDescriptor::synthesize(&graph(), &names(&["app"]), license(), &facts(true), options)
        .unwrap();
    assert_eq!(d.fetch_locators, names(&["crate://crates.io/foo/1.0.0", BAR_URL]));
    assert!(d.auxiliary_lines.contains(&"SRCREV_bar = \"main\"".to_string()));
    assert_eq!(d.auxiliary_lines.len(), 4);
    assert_eq!(d.version_pin_suffix, None);
    assert_eq!(d.version_pin_text(), "");
}

#[test]
fn descriptor_does_not_depend_on_the_order_of_the_graph() {
    let options = SynthesisOptions { reproducible: true, legacy_override_syntax: false };
    let members = names(&["app"]);
    let mut deps = graph();
    deps.push(registry("zeta", "2.0.0", None));
    deps.push(registry("alpha", "0.1.0", Some("00ff")));
    deps.push(git("qux", ReferenceKind::DefaultBranch, None));
    let first =
        RecipeDescriptor::synthesize(&deps, &members, license(), &facts(false), options).unwrap();
    let n = deps.len();
    for shift in 0..n {
        let mut rotated = deps.clone();
        rotated.rotate_left(shift);
        let d = RecipeDescriptor::synthesize(&rotated, &members, license(), &facts(false), options)
            .unwrap();
        assert_eq!(d.fetch_locators, first.fetch_locators);
        assert_eq!(d.auxiliary_lines, first.auxiliary_lines);
        rotated.reverse();
        let d = RecipeDescriptor::synthesize(&rotated, &members, license(), &facts(false), options)
            .unwrap();
        assert_eq!(d.fetch_locators, first.fetch_locators);
        assert_eq!(d.auxiliary_lines, first.auxiliary_lines);
    }
    assert_eq!(first.fetch_locators.len(), 5);
    assert_eq!(first.auxiliary_lines.len(), 8);
}

#[test]
fn a_dependency_listed_twice_is_described_once() {
    let options = SynthesisOptions { reproducible: true, legacy_override_syntax: false };
    let mut deps = graph();
    deps.extend(graph());
    let d = RecipeDescriptor::synthesize(&deps, &names(&["app"]), license(), &facts(false), options)
        .unwrap();
    assert_eq!(d.fetch_locators.len(), 2);
    assert_eq!(d.auxiliary_lines.len(), 4);
}

#[test]
fn members_and_local_paths_are_not_fetched() {
    let options = SynthesisOptions { reproducible: false, legacy_override_syntax: false };
    let deps = vec![
        registry("app", "1.0.0", Some("aa")),
        git("tool", ReferenceKind::Tag("v1".to_string()), None),
        local("helper"),
        registry("foo", "1.0.0", None),
    ];
    let d = RecipeDescriptor::synthesize(
        &deps,
        &names(&["app", "tool"]),
        license(),
        &facts(true),
        options,
    )
    .unwrap();
    assert_eq!(d.fetch_locators, names(&["crate://crates.io/foo/1.0.0"]));
    assert!(d.auxiliary_lines.is_empty());
}

#[test]
fn synthesis_fails_with_the_first_dependency_that_cannot_be_pinned() {
    let options = SynthesisOptions { reproducible: false, legacy_override_syntax: false };
    let deps = vec![
        registry("foo", "1.0.0", None),
        git("second", ReferenceKind::Rev("abc123".to_string()), None),
        git("third", ReferenceKind::Rev("def456".to_string()), None),
    ];
    let e = RecipeDescriptor::synthesize(&deps, &names(&["app"]), license(), &facts(true), options)
        .unwrap_err();
    assert_eq!(e, SynthesisError::UnresolvablePin { dependency: "second".to_string() });
    assert_eq!(
        classify_all(&deps, &names(&["app"]), true).unwrap_err(),
        SynthesisError::UnresolvablePin { dependency: "second".to_string() }
    );
    assert_eq!(classify_all(&deps, &names(&["second", "third"]), true).unwrap().len(), 3);
}

#[test]
fn empty_graph_gives_empty_sets() {
    let options = SynthesisOptions { reproducible: true, legacy_override_syntax: false };
    let d = RecipeDescriptor::synthesize(&Vec::new(), &Vec::new(), license(), &facts(true), options)
        .unwrap();
    assert!(d.fetch_locators.is_empty());
    assert!(d.auxiliary_lines.is_empty());
    assert_eq!(d.fetch_locators_text(), "");
    assert_eq!(d.auxiliary_text(), "");
}

#[test]
fn descriptor_as_the_recipe_lists_it() {
    let options = SynthesisOptions { reproducible: true, legacy_override_syntax: false };
    let d = RecipeDescriptor::synthesize(&graph(), &names(&["app"]), license(), &facts(false), options)
        .unwrap();
    assert_eq!(
        d.fetch_locators_text(),
        format!("    crate://crates.io/foo/1.0.0 \\\n    {} \\\n", BAR_URL)
    );
    assert_eq!(
        d.auxiliary_text(),
        format!(
            "EXTRA_OECARGO_PATHS += \"${{WORKDIR}}/bar\"\nSRCREV_FORMAT .= \"_bar\"\nSRCREV_bar = \"{}\"\nSRC_URI[foo-1.0.0.sha256sum] = \"deadbeef\"",
            EXACT
        )
    );
    assert_eq!(
        d.license_files_text(),
        "    file://LICENSE-MIT;md5=aa \\\n    file://LICENSE-APACHE;md5=bb \\\n"
    );
    assert_eq!(d.version_pin_text(), "PV:append = \".AUTOINC+a1b2c3d4e5\"");
}
