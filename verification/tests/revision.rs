use cargo_bitbake::error::SynthesisError;
use cargo_bitbake::fetch::{
    find_first, replace_colons, to_fetch_url, to_fetch_url_given, with_branch, GitPrefix,
};
use cargo_bitbake::origin::{ReferenceKind, VcsOrigin};
use cargo_bitbake::revision::{
    make_format_hint_line, make_revision_line, make_search_path_line, resolve, resolve_rev,
};
use cargo_bitbake::version_pin::compute;

const FULL: &str = "0123456789abcdef0123456789abcdef01234567";
const EXACT: &str = "f1e2d3c4b5a697881726354453627180f1e2d3c4";

fn origin(reference: ReferenceKind, exact: Option<&str>) -> VcsOrigin {
    VcsOrigin {
        url: "https://github.com/example/bar.git".to_string(),
        reference,
        precise_fragment: exact.map(|s| s.to_string()),
    }
}

#[test]
fn reproducible_mode_prefers_the_exact_commit() {
    let o = origin(ReferenceKind::Branch("master".to_string()), Some(EXACT));
    assert_eq!(resolve_rev(&o, true), Some(EXACT.to_string()));
    let o = origin(ReferenceKind::Tag("v1.2.3".to_string()), Some(EXACT));
    assert_eq!(resolve_rev(&o, true), Some(EXACT.to_string()));
    let o = origin(ReferenceKind::Rev(FULL.to_string()), Some(EXACT));
    assert_eq!(resolve_rev(&o, true), Some(EXACT.to_string()));
    let o = origin(ReferenceKind::DefaultBranch, Some(EXACT));
    assert_eq!(resolve_rev(&o, true), Some(EXACT.to_string()));
}

#[test]
fn master_branch_follows_the_newest_commit() {
    let o = origin(ReferenceKind::Branch("master".to_string()), None);
    assert_eq!(resolve_rev(&o, false), Some("${AUTOREV}".to_string()));
    let o = origin(ReferenceKind::Branch("master".to_string()), Some(EXACT));
    assert_eq!(resolve_rev(&o, false), Some("${AUTOREV}".to_string()));
    let o = origin(ReferenceKind::Branch("master".to_string()), None);
    assert_eq!(resolve_rev(&o, true), Some("${AUTOREV}".to_string()));
}

#[test]
fn default_branch_follows_the_newest_commit() {
    let o = origin(ReferenceKind::DefaultBranch, None);
    assert_eq!(resolve_rev(&o, false), Some("${AUTOREV}".to_string()));
    assert_eq!(resolve_rev(&o, true), Some("${AUTOREV}".to_string()));
}

#[test]
fn other_branches_stand_for_themselves() {
    let o = origin(ReferenceKind::Branch("main".to_string()), None);
    assert_eq!(resolve_rev(&o, false), Some("main".to_string()));
    let o = origin(ReferenceKind::Branch("Master".to_string()), Some(EXACT));
    assert_eq!(resolve_rev(&o, false), Some("Master".to_string()));
    let o = origin(ReferenceKind::Branch("master ".to_string()), None);
    assert_eq!(resolve_rev(&o, false), Some("master ".to_string()));
    let o = origin(ReferenceKind::Branch("".to_string()), None);
    assert_eq!(resolve_rev(&o, false), Some("".to_string()));
}

#[test]
fn short_rev_without_exact_commit_fails() {
    let o = origin(ReferenceKind::Rev("abc123".to_string()), None);
    assert_eq!(resolve_rev(&o, false), None);
    assert_eq!(resolve_rev(&o, true), None);
    match resolve("bar", &o, false) {
        Err(e) => assert_eq!(e, SynthesisError::UnresolvablePin { dependency: "bar".to_string() }),
        Ok(_) => panic!("an abbreviated commit was pinned"),
    }
    match resolve("bar", &o, true) {
        Err(e) => assert_eq!(e, SynthesisError::UnresolvablePin { dependency: "bar".to_string() }),
        Ok(_) => panic!("an abbreviated commit was pinned"),
    }
}

#[test]
fn short_rev_falls_back_on_the_exact_commit() {
    let o = origin(ReferenceKind::Rev("abc123".to_string()), Some(EXACT));
    assert_eq!(resolve_rev(&o, false), Some(EXACT.to_string()));
    assert_eq!(resolve_rev(&o, true), Some(EXACT.to_string()));
}

#[test]
fn full_rev_stands_for_itself() {
    let o = origin(ReferenceKind::Rev(FULL.to_string()), None);
    assert_eq!(resolve_rev(&o, false), Some(FULL.to_string()));
    assert_eq!(resolve_rev(&o, true), Some(FULL.to_string()));
    let o = origin(ReferenceKind::Rev(FULL.to_string()), Some(EXACT));
    assert_eq!(resolve_rev(&o, false), Some(FULL.to_string()));
}

#[test]
fn rev_of_other_lengths_is_abbreviated() {
    let longer = format!("{}0", FULL);
    let o = origin(ReferenceKind::Rev(longer), None);
    assert_eq!(resolve_rev(&o, false), None);
    let shorter = &FULL[..39];
    let o = origin(ReferenceKind::Rev(shorter.to_string()), None);
    assert_eq!(resolve_rev(&o, false), None);
    let o = origin(ReferenceKind::Rev(String::new()), None);
    assert_eq!(resolve_rev(&o, false), None);
}

#[test]
fn tag_passes_through() {
    let o = origin(ReferenceKind::Tag("v1.2.3".to_string()), None);
    assert_eq!(resolve_rev(&o, false), Some("v1.2.3".to_string()));
    assert_eq!(resolve_rev(&o, true), Some("v1.2.3".to_string()));
    let o = origin(ReferenceKind::Tag("v1.2.3".to_string()), Some(EXACT));
    assert_eq!(resolve_rev(&o, false), Some("v1.2.3".to_string()));
}

#[test]
fn pin_lines_are_three_in_order() {
    let o = origin(ReferenceKind::Tag("v1.2.3".to_string()), None);
    let pin = resolve("bar", &o, false).expect("a tag can be pinned");
    assert_eq!(
        pin.locator,
        "git://github.com/example/bar.git;protocol=https;nobranch=1;name=bar;destsuffix=bar"
    );
    assert_eq!(
        pin.pin_lines,
        vec![
            "SRCREV_FORMAT .= \"_bar\"".to_string(),
            "SRCREV_bar = \"v1.2.3\"".to_string(),
            "EXTRA_OECARGO_PATHS += \"${WORKDIR}/bar\"".to_string(),
        ]
    );
}

#[test]
fn pin_lines_one_by_one() {
    assert_eq!(make_format_hint_line("serde"), "SRCREV_FORMAT .= \"_serde\"");
    assert_eq!(make_revision_line("serde", "${AUTOREV}"), "SRCREV_serde = \"${AUTOREV}\"");
    assert_eq!(make_search_path_line("serde"), "EXTRA_OECARGO_PATHS += \"${WORKDIR}/serde\"");
    assert_eq!(make_revision_line("", ""), "SRCREV_ = \"\"");
}

#[test]
fn version_pin_suffix() {
    assert_eq!(
        compute(false, "a1b2c3d4e5f60000", false),
        Some("PV:append = \".AUTOINC+a1b2c3d4e5\"".to_string())
    );
    assert_eq!(
        compute(false, "a1b2c3d4e5f60000", true),
        Some("PV_append = \".AUTOINC+a1b2c3d4e5\"".to_string())
    );
    assert_eq!(compute(true, "a1b2c3d4e5f60000", false), None);
    assert_eq!(compute(true, "a1b2c3d4e5f60000", true), None);
    assert_eq!(compute(true, "", false), None);
}

#[test]
fn version_pin_needs_more_than_ten_characters() {
    assert_eq!(compute(false, "a1b2c3d4e5", false), None);
    assert_eq!(compute(false, "", false), None);
    assert_eq!(compute(false, "a1b2c3d4e", true), None);
    assert_eq!(
        compute(false, "a1b2c3d4e5f", false),
        Some("PV:append = \".AUTOINC+a1b2c3d4e5\"".to_string())
    );
}

#[test]
fn fetch_url_of_an_http_remote() {
    assert_eq!(
        to_fetch_url("http://github.com/rust-lang/cargo.git", Some("cargo"), GitPrefix::Git),
        "git://github.com/rust-lang/cargo.git;protocol=http;nobranch=1;name=cargo;destsuffix=cargo"
    );
    assert_eq!(
        to_fetch_url("https://github.com/rust-lang/cargo", Some("cargo"), GitPrefix::Git),
        "git://github.com/rust-lang/cargo;protocol=https;nobranch=1;name=cargo;destsuffix=cargo"
    );
}

#[test]
fn fetch_url_of_an_ssh_remote() {
    assert_eq!(
        to_fetch_url("ssh://git@github.com/rust-lang/cargo.git", Some("cargo"), GitPrefix::Git),
        "git://git@github.com/rust-lang/cargo.git;protocol=ssh;nobranch=1;name=cargo;destsuffix=cargo"
    );
    assert_eq!(
        to_fetch_url("git@github.com:rust-lang/cargo.git", Some("cargo"), GitPrefix::Git),
        "git://git@github.com/rust-lang/cargo.git;protocol=ssh;nobranch=1;name=cargo;destsuffix=cargo"
    );
}

#[test]
fn fetch_url_without_a_name_and_with_submodules() {
    assert_eq!(
        to_fetch_url("https://example.org/app.git", None, GitPrefix::Git),
        "git://example.org/app.git;protocol=https;nobranch=1"
    );
    assert_eq!(
        to_fetch_url("https://example.org/app.git", None, GitPrefix::GitSubmodule),
        "gitsm://example.org/app.git;protocol=https;nobranch=1"
    );
    assert_eq!(to_fetch_url("", None, GitPrefix::Git), ";nobranch=1");
    assert_eq!(to_fetch_url("local", Some("x"), GitPrefix::Git), "local;nobranch=1;name=x;destsuffix=x");
}

#[test]
fn fetch_url_given_the_style() {
    assert_eq!(
        to_fetch_url_given("me@host:a:b", None, GitPrefix::Git, true),
        "git://me@host/a/b;protocol=ssh;nobranch=1"
    );
    assert_eq!(
        to_fetch_url_given("me@host:a:b", None, GitPrefix::Git, false),
        "git:a:b;protocol=me@host;nobranch=1"
    );
    assert_eq!(
        to_fetch_url_given("https://example.org/x", Some("x"), GitPrefix::Git, true),
        "git://https///example.org/x;protocol=ssh;nobranch=1;name=x;destsuffix=x"
    );
}

#[test]
fn an_at_sign_before_a_colon_marks_the_ssh_style() {
    assert_eq!(
        to_fetch_url("https://me@example.org:8080/x", None, GitPrefix::Git),
        "git://https///me@example.org/8080/x;protocol=ssh;nobranch=1"
    );
    assert_eq!(
        to_fetch_url("https://example.org:8080/x@y", None, GitPrefix::Git),
        "git://example.org:8080/x@y;protocol=https;nobranch=1"
    );
}

#[test]
fn colons_and_first_places() {
    assert_eq!(replace_colons("a:b::c"), "a/b//c");
    assert_eq!(replace_colons(""), "");
    assert_eq!(replace_colons("\u{e9}:\u{10000}"), "\u{e9}/\u{10000}");
    assert_eq!(find_first("abc", 'b'), 1);
    assert_eq!(find_first("abc", 'x'), 3);
    assert_eq!(find_first("", 'x'), 0);
    assert_eq!(find_first("\u{e9}\u{10000}:x:", ':'), 2);
}

#[test]
fn branch_is_told_unless_the_fetcher_knows_it() {
    let url = "git://example.org/app.git;protocol=https;nobranch=1";
    assert_eq!(with_branch(url.to_string(), "master"), url);
    assert_eq!(with_branch(url.to_string(), "HEAD"), url);
    assert_eq!(
        with_branch(url.to_string(), "main"),
        "git://example.org/app.git;protocol=https;nobranch=1;branch=main"
    );
    assert_eq!(with_branch(String::new(), ""), ";branch=");
}
