use cargo_bitbake::error::{MetadataField, SynthesisError};
use cargo_bitbake::layout::rel_dir;
use cargo_bitbake::license::{
    build, effective_license, license_requests, normalize, split_identifiers,
};
use cargo_bitbake::metadata::{Metadata, MetadataRecord};
use cargo_bitbake::notice::Notice;
use cargo_bitbake::text::{join_lines, split_on, trim, white_space, wrap_each};

fn names(list: &[&str]) -> Vec<String> {
    list.iter().map(|s| s.to_string()).collect()
}

fn some(s: &str) -> Option<String> {
    Some(s.to_string())
}

fn record() -> MetadataRecord {
    MetadataRecord {
        name: some("cargo-bitbake"),
        version: some("0.3.16"),
        description: some("Generates a BitBake recipe"),
        homepage: some(" https://example.org/home \n"),
        repository: some("https://example.org/repo.git"),
        license: some("MIT/Apache-2.0"),
        license_file: None,
    }
}

#[test]
fn license_split_of_two() {
    assert_eq!(split_identifiers("MIT/Apache-2.0"), names(&["MIT", "Apache-2.0"]));
    assert_eq!(normalize("MIT/Apache-2.0"), "MIT | Apache-2.0");
    let requests = license_requests("MIT/Apache-2.0");
    assert_eq!(requests.len(), 2);
    assert_eq!(requests[0].identifier, "MIT");
    assert!(!requests[0].single);
    assert_eq!(requests[1].identifier, "Apache-2.0");
    assert!(!requests[1].single);
    let files = names(&["file://LICENSE-MIT;md5=aa \\\n", "file://LICENSE-APACHE;md5=bb \\\n"]);
    let descriptor = build("MIT/Apache-2.0", files.clone()).expect("two files for two licenses");
    assert_eq!(descriptor.normalized_expression, "MIT | Apache-2.0");
    assert_eq!(descriptor.file_refs, files);
}

#[test]
fn license_split_of_one() {
    assert_eq!(split_identifiers("MIT"), names(&["MIT"]));
    assert_eq!(normalize("MIT"), "MIT");
    let requests = license_requests("MIT");
    assert_eq!(requests.len(), 1);
    assert_eq!(requests[0].identifier, "MIT");
    assert!(requests[0].single);
    let descriptor = build("MIT", names(&["file://LICENSE;md5=aa \\\n"])).unwrap();
    assert_eq!(descriptor.normalized_expression, "MIT");
    assert_eq!(descriptor.file_refs, names(&["file://LICENSE;md5=aa \\\n"]));
}

#[test]
fn license_identifiers_are_trimmed_in_the_expression_only() {
    assert_eq!(normalize(" MIT / Apache-2.0 "), "MIT | Apache-2.0");
    let requests = license_requests(" MIT / Apache-2.0 ");
    assert_eq!(requests[0].identifier, " MIT ");
    assert_eq!(requests[1].identifier, " Apache-2.0 ");
    assert_eq!(normalize("MIT OR Apache-2.0"), "MIT OR Apache-2.0");
    assert_eq!(normalize("A/B/C"), "A | B | C");
}

#[test]
fn license_split_keeps_empty_identifiers() {
    assert_eq!(split_identifiers(""), names(&[""]));
    assert_eq!(split_identifiers("/"), names(&["", ""]));
    assert_eq!(split_identifiers("MIT/"), names(&["MIT", ""]));
    assert_eq!(split_identifiers("/MIT"), names(&["", "MIT"]));
    assert_eq!(split_identifiers("A//B"), names(&["A", "", "B"]));
    assert_eq!(normalize(""), "");
    assert_eq!(normalize("MIT/"), "MIT | ");
    assert_eq!(normalize("A//B"), "A |  | B");
    let requests = license_requests("");
    assert_eq!(requests.len(), 1);
    assert!(requests[0].single);
    assert_eq!(requests[0].identifier, "");
}

#[test]
fn split_agrees_with_the_split_of_strings() {
    for text in ["", "/", "a/b", "//", "a/", "/a", "a/b/c/", "no separator", "\u{e9}/\u{10000}/x"] {
        let expected: Vec<String> = text.split('/').map(|s| s.to_string()).collect();
        assert_eq!(split_on(text, '/'), expected, "{:?}", text);
    }
    assert_eq!(split_on("a,b", ','), names(&["a", "b"]));
}

#[test]
fn license_needs_one_file_for_each_identifier() {
    assert!(build("MIT/Apache-2.0", names(&["one"])).is_none());
    assert!(build("MIT", Vec::new()).is_none());
    assert!(build("MIT", names(&["one", "two"])).is_none());
    assert!(build("", Vec::new()).is_none());
    assert!(build("", names(&["one"])).is_some());
}

#[test]
fn license_falls_back_on_the_file_and_then_on_closed() {
    let chosen = effective_license(&some("MIT"), &some("COPYING"));
    assert_eq!(chosen.value, "MIT");
    assert!(chosen.notices.is_empty());
    let chosen = effective_license(&None, &some("COPYING"));
    assert_eq!(chosen.value, "COPYING");
    assert_eq!(chosen.notices, vec![Notice::MissingLicense]);
    let chosen = effective_license(&None, &None);
    assert_eq!(chosen.value, "CLOSED");
    assert_eq!(
        chosen.notices,
        vec![Notice::MissingLicense, Notice::MissingLicenseFile, Notice::AssumingClosedLicense]
    );
    let chosen = effective_license(&some(""), &None);
    assert_eq!(chosen.value, "");
    assert!(chosen.notices.is_empty());
}

#[test]
fn notices_have_their_sentences() {
    assert_eq!(Notice::UnderscoreInName.message(), "Project name contains an underscore");
    assert_eq!(
        Notice::MissingDescription.message(),
        "No 'description' field set in your Cargo.toml, using 'name' field"
    );
    assert_eq!(
        Notice::MissingHomepage.message(),
        "No 'homepage' field set in your Cargo.toml, trying 'repository' field"
    );
    assert_eq!(
        Notice::MissingLicense.message(),
        "No 'license' field set in your Cargo.toml, trying 'license-file' field"
    );
    assert_eq!(
        Notice::MissingLicenseFile.message(),
        "No 'license-file' field set in your Cargo.toml"
    );
    assert_eq!(Notice::AssumingClosedLicense.message(), "Assuming CLOSED license");
}

#[test]
fn trim_removes_white_space_at_both_ends() {
    assert_eq!(trim("  a b  "), "a b");
    assert_eq!(trim("\t\n a\u{a0}\u{3000}"), "a");
    assert_eq!(trim(""), "");
    assert_eq!(trim(" \t "), "");
    assert_eq!(trim("x"), "x");
    assert_eq!(trim("\u{200b}x"), "\u{200b}x");
}

#[test]
fn trim_agrees_with_the_trim_of_strings() {
    for text in ["", " ", " a", "a ", " a b ", "\u{85}a\u{2028}", "\u{1680}\u{2000}x\u{200a}\u{205f}",
        "\u{1c}x", "\u{feff}x", "\r\n", "\u{b}\u{c}y\u{2029}\u{202f}"]
    {
        assert_eq!(trim(text), text.trim(), "{:?}", text);
    }
    for code in 0u32..=0x10ffff {
        if let Some(c) = char::from_u32(code) {
            assert_eq!(white_space(c), c.is_whitespace(), "{:x}", code);
        }
    }
}

#[test]
fn joining_and_wrapping() {
    assert_eq!(join_lines(&names(&["a", "b", "c"]), "\n"), "a\nb\nc");
    assert_eq!(join_lines(&names(&["a"]), "\n"), "a");
    assert_eq!(join_lines(&names(&[]), "\n"), "");
    assert_eq!(join_lines(&names(&["", ""]), ", "), ", ");
    assert_eq!(wrap_each(&names(&["a", "b"]), "    ", " \\\n"), "    a \\\n    b \\\n");
    assert_eq!(wrap_each(&names(&[]), "    ", " \\\n"), "");
}

#[test]
fn metadata_needs_name_and_version() {
    let m = Metadata::load(record()).unwrap();
    assert_eq!(m.name, "cargo-bitbake");
    assert_eq!(m.version, "0.3.16");
    assert_eq!(m.license, some("MIT/Apache-2.0"));
    assert_eq!(m.license_file, None);
    let mut r = record();
    r.name = None;
    assert_eq!(
        Metadata::load(r).unwrap_err(),
        SynthesisError::MissingMetadataField(MetadataField::Name)
    );
    let mut r = record();
    r.version = None;
    assert_eq!(
        Metadata::load(r).unwrap_err(),
        SynthesisError::MissingMetadataField(MetadataField::Version)
    );
    let mut r = record();
    r.name = None;
    r.version = None;
    assert_eq!(
        Metadata::load(r).unwrap_err(),
        SynthesisError::MissingMetadataField(MetadataField::Name)
    );
}

#[test]
fn metadata_version_is_a_semantic_version() {
    for bad in ["1.0", "1.0.01", "1.0.unknown", "1.0.0-", "", "v1.0.0", " 1.0.0"] {
        let mut r = record();
        r.version = some(bad);
        assert_eq!(Metadata::load(r).unwrap_err(), SynthesisError::InvalidVersion, "{:?}", bad);
    }
    for good in ["1.0.0", "0.3.16", "1.2.3-alpha.1", "1.2.3+build.5", "1.2.3-rc.1+build"] {
        let mut r = record();
        r.version = some(good);
        assert_eq!(Metadata::load(r).unwrap().version, good);
    }
}

#[test]
fn metadata_assembles_from_a_given_canonical_form() {
    let m = Metadata::assemble(record(), some("1.2.3")).unwrap();
    assert_eq!(m.version, "1.2.3");
    assert_eq!(m.name, "cargo-bitbake");
    assert_eq!(Metadata::assemble(record(), None).unwrap_err(), SynthesisError::InvalidVersion);
    let mut r = record();
    r.version = None;
    assert_eq!(
        Metadata::assemble(r, some("1.2.3")).unwrap_err(),
        SynthesisError::MissingMetadataField(MetadataField::Version)
    );
}

#[test]
fn summary_falls_back_on_the_name() {
    let m = Metadata::load(record()).unwrap();
    let s = m.summary();
    assert_eq!(s.value, "Generates a BitBake recipe");
    assert!(s.notices.is_empty());
    let mut r = record();
    r.description = None;
    let s = Metadata::load(r).unwrap().summary();
    assert_eq!(s.value, "cargo-bitbake");
    assert_eq!(s.notices, vec![Notice::MissingDescription]);
}

#[test]
fn homepage_falls_back_on_the_repository() {
    let m = Metadata::load(record()).unwrap();
    let h = m.homepage().unwrap();
    assert_eq!(h.value, "https://example.org/home");
    assert!(h.notices.is_empty());
    let mut r = record();
    r.homepage = None;
    let h = Metadata::load(r).unwrap().homepage().unwrap();
    assert_eq!(h.value, "https://example.org/repo.git");
    assert_eq!(h.notices, vec![Notice::MissingHomepage]);
    let mut r = record();
    r.homepage = None;
    r.repository = None;
    assert_eq!(
        Metadata::load(r).unwrap().homepage().unwrap_err(),
        SynthesisError::MissingMetadataField(MetadataField::Repository)
    );
}

#[test]
fn name_with_underscore_is_remarked_on() {
    let m = Metadata::load(record()).unwrap();
    assert!(m.name_notices().is_empty());
    let mut r = record();
    r.name = some("cargo_bitbake");
    assert_eq!(Metadata::load(r).unwrap().name_notices(), vec![Notice::UnderscoreInName]);
    let mut r = record();
    r.name = some("a_b_c");
    assert_eq!(Metadata::load(r).unwrap().name_notices(), vec![Notice::UnderscoreInName]);
}

#[test]
fn recipe_file_is_named_after_name_and_version() {
    let m = Metadata::load(record()).unwrap();
    assert_eq!(m.recipe_file_name(), "cargo-bitbake_0.3.16.bb");
}

#[test]
fn relative_directory_of_the_manifest() {
    let root = names(&["/", "home", "me", "ws"]);
    let at_root = names(&["/", "home", "me", "ws", "Cargo.toml"]);
    assert_eq!(rel_dir(&root, &at_root).unwrap(), names(&[]));
    let nested = names(&["/", "home", "me", "ws", "crates", "app", "Cargo.toml"]);
    assert_eq!(rel_dir(&root, &nested).unwrap(), names(&["crates", "app"]));
    assert_eq!(rel_dir(&names(&[]), &nested).unwrap(), names(&["/", "home", "me", "ws", "crates", "app"]));
}

#[test]
fn manifest_outside_the_root_is_an_error() {
    let root = names(&["/", "home", "me", "ws"]);
    let elsewhere = names(&["/", "home", "you", "ws", "Cargo.toml"]);
    assert_eq!(rel_dir(&root, &elsewhere).unwrap_err(), SynthesisError::AmbiguousRepoLocation);
    let above = names(&["/", "home", "me", "Cargo.toml"]);
    assert_eq!(rel_dir(&root, &above).unwrap_err(), SynthesisError::AmbiguousRepoLocation);
    let is_root = names(&["/", "home", "me", "ws"]);
    assert_eq!(rel_dir(&root, &is_root).unwrap_err(), SynthesisError::AmbiguousRepoLocation);
    assert_eq!(rel_dir(&root, &names(&[])).unwrap_err(), SynthesisError::AmbiguousRepoLocation);
    assert_eq!(rel_dir(&names(&[]), &names(&[])).unwrap_err(), SynthesisError::AmbiguousRepoLocation);
}
