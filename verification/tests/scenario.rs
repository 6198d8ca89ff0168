//! End-to-end walks through the pipeline on in-memory trees: discovery,
//! grouping, entry-point resolution, classification, aggregation, output.

use crate_triage::discovery::{is_manifest, Root, ScanIndex};
use crate_triage::manifest::{Manifest, Package, Version};
use crate_triage::report::{crate_has_non_trivial_code, render_line, root_has_non_trivial_code};
use crate_triage::triviality::{is_bin_non_trivial, is_lib_non_trivial};

fn b(s: &str) -> Vec<u8> {
    s.as_bytes().to_vec()
}

fn pkg(name: &str) -> Manifest {
    Manifest {
        package: Package {
            name: b(name),
            version: Version { major: 0, minor: 1, patch: 0, pre: Vec::new(), build: Vec::new() },
        },
        lib: None,
        bins: None,
    }
}

/// One package with the default binary holding only a short print `main`.
#[test]
fn trivial_package_prints_its_bare_name() {
    assert!(is_manifest(&b("Cargo.toml")));
    let mut index = ScanIndex::new();
    index.insert(Root { dir: b("pkgA"), manifest: pkg("pkgA") });
    assert_eq!(index.entries.len(), 1);

    let root = &index.entries[0].group.members[0];
    let bins = root.bins(true);
    assert_eq!(bins, vec![b("pkgA/src/main.rs")]);

    let main_rs = b("fn main() { println!(\"hi\"); }\n");
    let mut verdicts: Vec<bool> = Vec::new();
    for _bin in &bins {
        verdicts.push(is_bin_non_trivial(&main_rs).unwrap());
    }
    let root_verdict = root_has_non_trivial_code(&verdicts, &None);
    let package_verdict = crate_has_non_trivial_code(&vec![root_verdict]);
    assert!(!package_verdict);
    assert_eq!(render_line(&index.entries[0].name, package_verdict, false), Some(b("pkgA")));
    assert_eq!(render_line(&index.entries[0].name, package_verdict, true), Some(b("pkgA")));
}

/// The same package once `main.rs` gains a helper function.
#[test]
fn helper_function_silences_normal_mode_and_prefixes_verbose() {
    let mut index = ScanIndex::new();
    index.insert(Root { dir: b("pkgA"), manifest: pkg("pkgA") });
    let root = &index.entries[0].group.members[0];
    let bins = root.bins(true);

    let main_rs = b("fn main() { println!(\"hi\"); }\nfn helper() {}\n");
    let mut verdicts: Vec<bool> = Vec::new();
    for _bin in &bins {
        verdicts.push(is_bin_non_trivial(&main_rs).unwrap());
    }
    let root_verdict = root_has_non_trivial_code(&verdicts, &None);
    let package_verdict = crate_has_non_trivial_code(&vec![root_verdict]);
    assert!(package_verdict);
    assert_eq!(render_line(&index.entries[0].name, package_verdict, false), None);
    assert_eq!(
        render_line(&index.entries[0].name, package_verdict, true),
        Some(b("non trivial: pkgA")),
    );
}

/// A library-only package: hidden items keep it trivial, one public struct
/// flips it.
#[test]
fn library_package_flips_on_a_public_struct() {
    let mut index = ScanIndex::new();
    index.insert(Root { dir: b("pkgB"), manifest: pkg("pkgB") });
    let root = &index.entries[0].group.members[0];
    assert_eq!(root.bins(false), Vec::<Vec<u8>>::new());
    assert_eq!(root.lib(false, true), Some(b("pkgB/src/lib.rs")));

    let hidden = b("struct Hidden;\n");
    let lib_verdict = Some(is_lib_non_trivial(&hidden).unwrap());
    assert!(!root_has_non_trivial_code(&Vec::new(), &lib_verdict));

    let shown = b("struct Hidden;\npub struct Shown;\n");
    let lib_verdict = Some(is_lib_non_trivial(&shown).unwrap());
    assert!(root_has_non_trivial_code(&Vec::new(), &lib_verdict));
}
