use crate_triage::syntax::{item_kind_of, ItemKind};
use crate_triage::text::{contains_sub_exec, count_newlines};
use crate_triage::triviality::{is_bin_non_trivial, is_lib_non_trivial};

fn b(s: &str) -> Vec<u8> {
    s.as_bytes().to_vec()
}

#[test]
fn short_print_main_is_trivial() {
    let src = b("fn main() { println!(\"hi\"); }");
    assert_eq!(is_bin_non_trivial(&src), Ok(false));
}

#[test]
fn helper_function_makes_bin_non_trivial() {
    let src = b("fn main() { println!(\"hi\"); }\nfn helper() {}\n");
    assert_eq!(is_bin_non_trivial(&src), Ok(true));
}

#[test]
fn second_trivial_main_stays_trivial() {
    let src = b("fn main() { println!(\"a\"); }\nfn main() { println!(\"b\"); }\n");
    assert_eq!(is_bin_non_trivial(&src), Ok(false));
}

#[test]
fn long_main_of_prints_is_non_trivial() {
    let src = b("fn main() {\n    println!(\"a\");\n    println!(\"b\");\n}\n");
    assert_eq!(is_bin_non_trivial(&src), Ok(true));
}

#[test]
fn two_newlines_in_main_body_are_still_trivial() {
    let src = b("fn main() {\n    println!(\"a\");\n}");
    assert_eq!(is_bin_non_trivial(&src), Ok(false));
}

#[test]
fn short_main_without_print_macro_is_non_trivial() {
    let src = b("fn main() { print!(\"hi\"); }");
    assert_eq!(is_bin_non_trivial(&src), Ok(true));
}

#[test]
fn print_macro_in_comment_counts_textually() {
    let src = b("fn main() { /* println! */ }");
    assert_eq!(is_bin_non_trivial(&src), Ok(false));
}

#[test]
fn empty_bin_file_is_trivial() {
    let src = b("");
    assert_eq!(is_bin_non_trivial(&src), Ok(false));
}

#[test]
fn non_function_items_do_not_flag_bin() {
    let src = b("struct S;\nconst K: u8 = 1;\n");
    assert_eq!(is_bin_non_trivial(&src), Ok(false));
}

#[test]
fn hidden_struct_is_trivial_lib() {
    let src = b("struct Hidden;");
    assert_eq!(is_lib_non_trivial(&src), Ok(false));
}

#[test]
fn shown_struct_is_non_trivial_lib() {
    let src = b("struct Hidden;\npub struct Shown;\n");
    assert_eq!(is_lib_non_trivial(&src), Ok(true));
}

#[test]
fn restricted_visibility_is_trivial_lib() {
    let src = b("pub(crate) struct S;\npub(super) fn x() {}\n");
    assert_eq!(is_lib_non_trivial(&src), Ok(false));
}

#[test]
fn plain_use_is_trivial_pub_use_is_not() {
    assert_eq!(is_lib_non_trivial(&b("use core::fmt;\n")), Ok(false));
    assert_eq!(is_lib_non_trivial(&b("pub use core::fmt;\n")), Ok(true));
}

#[test]
fn each_pub_item_kind_is_non_trivial_lib() {
    let cases = [
        "pub fn f() {}",
        "pub const K: u8 = 1;",
        "pub enum E { A }",
        "pub mod m {}",
        "pub struct S;",
        "pub static G: u8 = 1;",
        "pub trait T {}",
        "pub type A = u8;",
    ];
    for case in cases {
        assert_eq!(is_lib_non_trivial(&b(case)), Ok(true), "case: {}", case);
    }
}

#[test]
fn pub_main_in_bin_file_is_still_trivial_bin() {
    let src = b("pub fn main() { println!(\"hi\"); }");
    assert_eq!(is_bin_non_trivial(&src), Ok(false));
    assert_eq!(is_lib_non_trivial(&src), Ok(true));
}

#[test]
fn newline_counting_is_exact() {
    assert_eq!(count_newlines(&b("")), 0);
    assert_eq!(count_newlines(&b("abc")), 0);
    assert_eq!(count_newlines(&b("a\nb\nc\n")), 3);
}

#[test]
fn substring_search_edges() {
    assert!(contains_sub_exec(&b("hello println! now"), &b("println!")));
    assert!(!contains_sub_exec(&b("print!"), &b("println!")));
    assert!(contains_sub_exec(&b("anything"), &b("")));
    assert!(!contains_sub_exec(&b("ab"), &b("abc")));
    assert!(contains_sub_exec(&b("aab"), &b("ab")));
}

#[test]
fn kind_decoding_matches_the_grammar_tags() {
    assert_eq!(item_kind_of(&"function_item".to_owned()), Some(ItemKind::Function));
    assert_eq!(item_kind_of(&"struct_item".to_owned()), Some(ItemKind::Struct));
    assert_eq!(item_kind_of(&"use_declaration".to_owned()), Some(ItemKind::Use));
    assert_eq!(item_kind_of(&"macro_definition".to_owned()), None);
}
