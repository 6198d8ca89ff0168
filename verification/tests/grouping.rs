use crate_triage::discovery::{is_manifest, Root, RootGroup, ScanIndex};
use crate_triage::manifest::{
    ident_cmp_exec, manifest_cmp_exec, manifest_eq_exec, version_cmp_exec, BinDecl, LibDecl,
    Manifest, Package, Version,
};
use crate_triage::order::{bytes_cmp_exec, Order};
use crate_triage::report::{crate_has_non_trivial_code, render_line, root_has_non_trivial_code};

fn b(s: &str) -> Vec<u8> {
    s.as_bytes().to_vec()
}

fn version(major: u64, minor: u64, patch: u64, pre: &[&str]) -> Version {
    Version {
        major,
        minor,
        patch,
        pre: pre.iter().map(|p| b(p)).collect(),
        build: Vec::new(),
    }
}

fn manifest(name: &str, v: Version) -> Manifest {
    Manifest { package: Package { name: b(name), version: v }, lib: None, bins: None }
}

fn root(dir: &str, name: &str, v: Version) -> Root {
    Root { dir: b(dir), manifest: manifest(name, v) }
}

#[test]
fn manifest_names_are_case_sensitive() {
    assert!(is_manifest(&b("Cargo.toml")));
    assert!(is_manifest(&b("cargo.toml")));
    assert!(!is_manifest(&b("CARGO.TOML")));
    assert!(!is_manifest(&b("Cargo.Toml")));
    assert!(!is_manifest(&b("Cargo.toml.bak")));
}

#[test]
fn byte_order_is_lexicographic() {
    assert_eq!(bytes_cmp_exec(&b("abc"), &b("abd")), Order::Less);
    assert_eq!(bytes_cmp_exec(&b("ab"), &b("abc")), Order::Less);
    assert_eq!(bytes_cmp_exec(&b("b"), &b("abc")), Order::Greater);
    assert_eq!(bytes_cmp_exec(&b("abc"), &b("abc")), Order::Equal);
}

#[test]
fn numeric_identifiers_compare_numerically() {
    assert_eq!(ident_cmp_exec(&b("2"), &b("10")), Order::Less);
    assert_eq!(ident_cmp_exec(&b("10"), &b("2")), Order::Greater);
    assert_eq!(ident_cmp_exec(&b("2"), &b("alpha")), Order::Less);
    assert_eq!(ident_cmp_exec(&b("alpha"), &b("beta")), Order::Less);
}

#[test]
fn release_follows_every_pre_release() {
    let release = version(1, 0, 0, &[]);
    let alpha = version(1, 0, 0, &["alpha"]);
    assert_eq!(version_cmp_exec(&alpha, &release), Order::Less);
    assert_eq!(version_cmp_exec(&release, &alpha), Order::Greater);
    assert_eq!(version_cmp_exec(&release, &version(1, 0, 0, &[])), Order::Equal);
}

#[test]
fn pre_release_lists_compare_per_identifier() {
    let a = version(1, 0, 0, &["alpha"]);
    let a1 = version(1, 0, 0, &["alpha", "1"]);
    let beta = version(1, 0, 0, &["beta"]);
    assert_eq!(version_cmp_exec(&a, &a1), Order::Less);
    assert_eq!(version_cmp_exec(&a1, &beta), Order::Less);
}

#[test]
fn manifest_order_is_name_then_version() {
    let a1 = manifest("alpha", version(2, 0, 0, &[]));
    let b0 = manifest("beta", version(0, 1, 0, &[]));
    assert_eq!(manifest_cmp_exec(&a1, &b0), Order::Less);
    let a2 = manifest("alpha", version(2, 1, 0, &[]));
    assert_eq!(manifest_cmp_exec(&a1, &a2), Order::Less);
    assert_eq!(a1.cmp(&a2), Order::Less);
}

#[test]
fn build_metadata_is_identity_but_not_precedence() {
    let mut v1 = version(1, 0, 0, &[]);
    let mut v2 = version(1, 0, 0, &[]);
    v1.build = b("abc");
    v2.build = b("def");
    assert_eq!(version_cmp_exec(&v1, &v2), Order::Equal);
    let m1 = manifest("p", v1);
    let m2 = manifest("p", v2);
    assert!(!manifest_eq_exec(&m1, &m2));
}

#[test]
fn identical_manifests_collapse_across_directories() {
    let mut group = RootGroup::new();
    group.insert(root("/a/pkg", "pkg", version(0, 1, 0, &[])));
    group.insert(root("/elsewhere/pkg", "pkg", version(0, 1, 0, &[])));
    assert_eq!(group.members.len(), 1);
    assert_eq!(group.members[0].dir, b("/a/pkg"));
}

#[test]
fn distinct_versions_stay_distinct_and_ordered() {
    let mut group = RootGroup::new();
    group.insert(root("/x", "pkg", version(0, 2, 0, &[])));
    group.insert(root("/y", "pkg", version(0, 1, 0, &[])));
    group.insert(root("/z", "pkg", version(0, 1, 1, &[])));
    assert_eq!(group.members.len(), 3);
    assert_eq!(group.members[0].manifest.package.version.minor, 1);
    assert_eq!(group.members[0].manifest.package.version.patch, 0);
    assert_eq!(group.members[1].manifest.package.version.patch, 1);
    assert_eq!(group.members[2].manifest.package.version.minor, 2);
}

#[test]
fn manifests_differing_only_in_targets_both_stay() {
    let mut group = RootGroup::new();
    let plain = root("/x", "pkg", version(0, 1, 0, &[]));
    let mut with_lib = root("/y", "pkg", version(0, 1, 0, &[]));
    with_lib.manifest.lib = Some(LibDecl { path: Some(b("src/other.rs")) });
    assert!(!plain.eq(&with_lib));
    assert_eq!(plain.cmp(&with_lib), Order::Equal);
    group.insert(plain);
    group.insert(with_lib);
    assert_eq!(group.members.len(), 2);
    assert_eq!(group.members[0].dir, b("/x"));
}

#[test]
fn index_groups_by_declared_name() {
    let mut index = ScanIndex::new();
    index.insert(root("/a", "pkg_a", version(0, 1, 0, &[])));
    index.insert(root("/b", "pkg_b", version(0, 1, 0, &[])));
    index.insert(root("/c", "pkg_a", version(0, 2, 0, &[])));
    assert_eq!(index.entries.len(), 2);
    assert_eq!(index.entries[0].name, b("pkg_a"));
    assert_eq!(index.entries[0].group.members.len(), 2);
    assert_eq!(index.entries[1].name, b("pkg_b"));
    assert_eq!(index.entries[1].group.members.len(), 1);
}

#[test]
fn declared_bins_resolve_and_skip_missing_paths() {
    let mut r = root("/p", "pkg", version(0, 1, 0, &[]));
    r.manifest.bins = Some(vec![
        BinDecl { path: None },
        BinDecl { path: Some(b("src/bin/a.rs")) },
        BinDecl { path: Some(b("tools/b.rs")) },
    ]);
    let bins = r.bins(true);
    assert_eq!(bins, vec![b("/p/src/bin/a.rs"), b("/p/tools/b.rs")]);
}

#[test]
fn declared_bins_of_only_missing_paths_have_no_fallback() {
    let mut r = root("/p", "pkg", version(0, 1, 0, &[]));
    r.manifest.bins = Some(vec![BinDecl { path: None }]);
    assert_eq!(r.bins(true), Vec::<Vec<u8>>::new());
}

#[test]
fn default_bin_applies_only_when_present_on_disk() {
    let r = root("/p", "pkg", version(0, 1, 0, &[]));
    assert_eq!(r.bins(true), vec![b("/p/src/main.rs")]);
    assert_eq!(r.bins(false), Vec::<Vec<u8>>::new());
    let mut empty_bins = root("/p", "pkg", version(0, 1, 0, &[]));
    empty_bins.manifest.bins = Some(Vec::new());
    assert_eq!(empty_bins.bins(true), vec![b("/p/src/main.rs")]);
}

#[test]
fn library_resolution_prefers_existing_declared_path() {
    let mut r = root("/p", "pkg", version(0, 1, 0, &[]));
    r.manifest.lib = Some(LibDecl { path: Some(b("src/other.rs")) });
    assert_eq!(r.lib(true, true), Some(b("/p/src/other.rs")));
    assert_eq!(r.lib(false, true), Some(b("/p/src/lib.rs")));
    assert_eq!(r.lib(false, false), None);
    let plain = root("/p", "pkg", version(0, 1, 0, &[]));
    assert_eq!(plain.lib(false, true), Some(b("/p/src/lib.rs")));
    assert_eq!(plain.lib(false, false), None);
}

#[test]
fn package_is_non_trivial_when_any_root_is() {
    assert!(crate_has_non_trivial_code(&vec![false, true, false]));
    assert!(!crate_has_non_trivial_code(&vec![false, false]));
    assert!(!crate_has_non_trivial_code(&Vec::new()));
}

#[test]
fn root_verdict_folds_bins_then_library() {
    assert!(root_has_non_trivial_code(&vec![false, true], &None));
    assert!(root_has_non_trivial_code(&Vec::new(), &Some(true)));
    assert!(!root_has_non_trivial_code(&vec![false], &Some(false)));
    assert!(!root_has_non_trivial_code(&Vec::new(), &None));
}

#[test]
fn output_lines_follow_the_verbose_convention() {
    assert_eq!(render_line(&b("pkgA"), false, false), Some(b("pkgA")));
    assert_eq!(render_line(&b("pkgA"), false, true), Some(b("pkgA")));
    assert_eq!(render_line(&b("pkgA"), true, false), None);
    assert_eq!(render_line(&b("pkgA"), true, true), Some(b("non trivial: pkgA")));
}
