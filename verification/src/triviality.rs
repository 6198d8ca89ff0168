//! The triviality heuristics. A binary entry point is non-trivial when any
//! top-level function other than `main` exists, or when `main`'s body text has
//! more than `NEWLINE_LIMIT` newline characters, or when it does not contain
//! the line-print macro name as a literal substring. A library entry point is
//! non-trivial as soon as any consulted top-level item carries a visibility
//! modifier whose text is exactly `pub`. Both checks are deliberately textual,
//! not structural, on the body and visibility texts.

use vstd::prelude::*;

use crate::syntax::{
    parse_top_items, source_items, spec_item_kind, views_of, SourceItem, SourceItemView,
    SourceKidView,
};
use crate::text::{contains_sub, contains_sub_exec, count_newlines, newline_count};

verus! {

/// A `main` body with strictly more newline characters than this is non-trivial.
pub const NEWLINE_LIMIT: usize = 2;

/// Why a file could not be classified.
#[derive(Clone, Copy, PartialEq, Eq, Structural, Debug)]
pub enum ClassifyError {
    /// No syntax tree could be produced from the bytes.
    ParseFailure,
    /// A function item carries no name field.
    MissingName,
    /// A function item carries no body field.
    MissingBody,
}

/// The bytes of the name `main`.
pub open spec fn main_name() -> Seq<u8> {
    seq![109u8, 97u8, 105u8, 110u8]
}

/// The literal substring that denotes a line-print macro invocation.
pub open spec fn println_name() -> Seq<u8> {
    seq![112u8, 114u8, 105u8, 110u8, 116u8, 108u8, 110u8, 33u8]
}

/// The bytes of the unrestricted public visibility keyword.
pub open spec fn pub_name() -> Seq<u8> {
    seq![112u8, 117u8, 98u8]
}

/// The name `main` as a byte string.
pub fn main_name_exec() -> (r: Vec<u8>)
    ensures
        r@ == main_name(),
{
    let v: Vec<u8> = vec![109u8, 97u8, 105u8, 110u8];
    v
}

/// The line-print macro substring as a byte string.
pub fn println_name_exec() -> (r: Vec<u8>)
    ensures
        r@ == println_name(),
{
    let v: Vec<u8> = vec![112u8, 114u8, 105u8, 110u8, 116u8, 108u8, 110u8, 33u8];
    v
}

/// The public visibility keyword as a byte string.
pub fn pub_name_exec() -> (r: Vec<u8>)
    ensures
        r@ == pub_name(),
{
    let v: Vec<u8> = vec![112u8, 117u8, 98u8];
    v
}

/// The verdict of the binary heuristic over a sequence of top-level items,
/// examined in order: a function item without a name or (for `main`) without a
/// body stops the scan with an error; a function not named `main` or a `main`
/// whose body is long or avoids the line-print macro name is non-trivial.
pub open spec fn bin_scan(items: Seq<SourceItemView>) -> Result<bool, ClassifyError>
    decreases items.len(),
{
    if items.len() == 0 {
        Ok(false)
    } else {
        let t = items[0];
        if t.kind != "function_item"@ {
            bin_scan(items.skip(1))
        } else if t.name is None {
            Err(ClassifyError::MissingName)
        } else if t.name.unwrap() != main_name() {
            Ok(true)
        } else if t.body is None {
            Err(ClassifyError::MissingBody)
        } else if newline_count(t.body.unwrap()) > NEWLINE_LIMIT {
            Ok(true)
        } else if !contains_sub(t.body.unwrap(), println_name()) {
            Ok(true)
        } else {
            bin_scan(items.skip(1))
        }
    }
}

/// Classifies the bytes of a binary entry-point file: `Ok(true)` means
/// non-trivial. Exactly the verdict of `bin_scan` over the file's top-level
/// items; `Err(ClassifyError::ParseFailure)` where no tree can be produced.
pub fn is_bin_non_trivial(content: &Vec<u8>) -> (r: Result<bool, ClassifyError>)
    ensures
        source_items(content@) is None ==> r == Err::<bool, ClassifyError>(
            ClassifyError::ParseFailure,
        ),
        source_items(content@) matches Some(model) ==> r == bin_scan(model),
{
    let items: Vec<SourceItem> = match parse_top_items(content) {
        None => {
            return Err(ClassifyError::ParseFailure);
        },
        Some(v) => v,
    };
    let ghost model = source_items(content@).unwrap();
    let function_kind: String = "function_item".to_owned();
    let main_n = main_name_exec();
    let println_n = println_name_exec();
    let mut i: usize = 0;
    proof {
        assert(model.skip(0) =~= model);
        assert(views_of(items@).len() == items@.len());
    }
    while i < items.len()
        invariant
            source_items(content@) == Some(model),
            views_of(items@) == model,
            model.len() == items@.len(),
            i <= items.len(),
            bin_scan(model) == bin_scan(model.skip(i as int)),
            function_kind@ == "function_item"@,
            main_n@ == main_name(),
            println_n@ == println_name(),
        decreases items.len() - i,
    {
        let item = &items[i];
        proof {
            assert(model[i as int] == item@);
            assert(model.skip(i as int)[0] == model[i as int]);
            assert(model.skip(i as int).skip(1) =~= model.skip(i + 1));
        }
        if item.kind == function_kind {
            match &item.name {
                None => {
                    return Err(ClassifyError::MissingName);
                },
                Some(name) => {
                    if !crate::order::bytes_eq(name, &main_n) {
                        return Ok(true);
                    }
                    match &item.body {
                        None => {
                            return Err(ClassifyError::MissingBody);
                        },
                        Some(body) => {
                            if count_newlines(body) > NEWLINE_LIMIT {
                                return Ok(true);
                            }
                            if !contains_sub_exec(body, &println_n) {
                                return Ok(true);
                            }
                        },
                    }
                },
            }
        }
        i = i + 1;
    }
    proof {
        assert(model.skip(i as int) =~= Seq::<SourceItemView>::empty());
    }
    Ok(false)
}

/// The first direct child that is a visibility modifier, if any.
pub open spec fn first_vis(kids: Seq<SourceKidView>) -> Option<SourceKidView>
    decreases kids.len(),
{
    if kids.len() == 0 {
        None
    } else if kids[0].kind == "visibility_modifier"@ {
        Some(kids[0])
    } else {
        first_vis(kids.skip(1))
    }
}

/// Whether a top-level item is of a consulted kind and carries an unrestricted
/// public visibility modifier.
pub open spec fn item_is_pub(t: SourceItemView) -> bool {
    spec_item_kind(t.kind) is Some && match first_vis(t.kids) {
        Some(k) => k.text == pub_name(),
        None => false,
    }
}

/// The verdict of the library heuristic over a sequence of top-level items:
/// non-trivial exactly when some item is public.
pub open spec fn lib_scan(items: Seq<SourceItemView>) -> bool {
    exists|i: int| 0 <= i < items.len() && item_is_pub(items[i])
}

/// Classifies the bytes of a library entry-point file: `Ok(true)` means
/// non-trivial. Exactly the verdict of `lib_scan` over the file's top-level
/// items; `Err(ClassifyError::ParseFailure)` where no tree can be produced.
#[verifier::rlimit(50)]
pub fn is_lib_non_trivial(content: &Vec<u8>) -> (r: Result<bool, ClassifyError>)
    ensures
        source_items(content@) is None ==> r == Err::<bool, ClassifyError>(
            ClassifyError::ParseFailure,
        ),
        source_items(content@) matches Some(model) ==> r == Ok::<bool, ClassifyError>(
            lib_scan(model),
        ),
{
    let items: Vec<SourceItem> = match parse_top_items(content) {
        None => {
            return Err(ClassifyError::ParseFailure);
        },
        Some(v) => v,
    };
    let ghost model = source_items(content@).unwrap();
    let vis_kind: String = "visibility_modifier".to_owned();
    let pub_n = pub_name_exec();
    let mut i: usize = 0;
    proof {
        assert(views_of(items@).len() == items@.len());
    }
    while i < items.len()
        invariant
            source_items(content@) == Some(model),
            views_of(items@) == model,
            model.len() == items@.len(),
            i <= items.len(),
            forall|k: int| 0 <= k < i ==> !item_is_pub(model[k]),
            vis_kind@ == "visibility_modifier"@,
            pub_n@ == pub_name(),
        decreases items.len() - i,
    {
        let item = &items[i];
        proof {
            assert(model[i as int] == item@);
        }
        if crate::syntax::item_kind_of(&item.kind).is_some() {
            let ghost kids = item@.kids;
            let mut j: usize = 0;
            proof {
                assert(kids.skip(0) =~= kids);
            }
            while j < item.kids.len() && !(item.kids[j].kind == vis_kind)
                invariant
                    kids == item@.kids,
                    item@ == model[i as int],
                    i < items@.len(),
                    model.len() == items@.len(),
                    views_of(items@) == model,
                    item == &items[i as int],
                    kids.len() == item.kids@.len(),
                    j <= item.kids.len(),
                    first_vis(kids) == first_vis(kids.skip(j as int)),
                    vis_kind@ == "visibility_modifier"@,
                decreases item.kids.len() - j,
            {
                proof {
                    assert(kids[j as int] == item.kids@[j as int]@);
                    assert(kids.skip(j as int)[0] == kids[j as int]);
                    assert(kids.skip(j as int).skip(1) =~= kids.skip(j + 1));
                }
                j = j + 1;
            }
            proof {
                if j < item.kids.len() {
                    assert(kids[j as int] == item.kids@[j as int]@);
                    assert(kids.skip(j as int)[0] == kids[j as int]);
                } else {
                    assert(kids.skip(j as int) =~= Seq::<SourceKidView>::empty());
                }
            }
            if j < item.kids.len() {
                if crate::order::bytes_eq(&item.kids[j].text, &pub_n) {
                    proof {
                        assert(item_is_pub(model[i as int]));
                    }
                    return Ok(true);
                }
            }
            proof {
                assert(!item_is_pub(model[i as int]));
            }
        } else {
            proof {
                assert(!item_is_pub(model[i as int]));
            }
        }
        i = i + 1;
    }
    proof {
        assert(!lib_scan(model));
    }
    Ok(false)
}

/// Inserting and then dropping the head commute: the tail of a sequence with
/// an element inserted at a positive position is the tail with the element
/// inserted one position earlier.
proof fn lemma_insert_skip1<A>(items: Seq<A>, k: int, f: A)
    requires
        1 <= k <= items.len(),
    ensures
        items.insert(k, f).skip(1) =~= items.skip(1).insert(k - 1, f),
{
    let lhs = items.insert(k, f).skip(1);
    let rhs = items.skip(1).insert(k - 1, f);
    assert forall|j: int| 0 <= j < lhs.len() implies lhs[j] == rhs[j] by {
        assert(lhs[j] == items.insert(k, f)[j + 1]);
    }
}

/// Law: a file whose top-level function items are all named `main`, each with
/// a body of at most `NEWLINE_LIMIT` newlines that contains the line-print
/// macro name, is trivial. In particular a lone `main` holding one short
/// line-print call is trivial.
pub proof fn lemma_bin_short_print_main_trivial(items: Seq<SourceItemView>)
    requires
        forall|i: int|
            0 <= i < items.len() && items[i].kind == "function_item"@ ==> items[i].name == Some(
                main_name(),
            ) && (items[i].body matches Some(b) && newline_count(b) <= NEWLINE_LIMIT
                && contains_sub(b, println_name())),
    ensures
        bin_scan(items) == Ok::<bool, ClassifyError>(false),
    decreases items.len(),
{
    if items.len() > 0 {
        assert forall|i: int|
            0 <= i < items.skip(1).len() && items.skip(1)[i].kind == "function_item"@ implies items.skip(
            1,
        )[i].name == Some(main_name()) && (items.skip(1)[i].body matches Some(b)
            && newline_count(b) <= NEWLINE_LIMIT && contains_sub(b, println_name())) by {
            assert(items.skip(1)[i] == items[i + 1]);
        }
        lemma_bin_short_print_main_trivial(items.skip(1));
    }
}

/// Law: inserting one more top-level function whose name is not `main` into a
/// file the binary heuristic finds trivial makes it non-trivial, wherever the
/// function is inserted. (A second function named exactly `main` does not
/// qualify: the heuristic inspects each `main` only by its own body.)
pub proof fn lemma_bin_added_function_non_trivial(
    items: Seq<SourceItemView>,
    k: int,
    f: SourceItemView,
)
    requires
        bin_scan(items) == Ok::<bool, ClassifyError>(false),
        0 <= k <= items.len(),
        f.kind == "function_item"@,
        f.name matches Some(n) && n != main_name(),
    ensures
        bin_scan(items.insert(k, f)) == Ok::<bool, ClassifyError>(true),
    decreases items.len(),
{
    let ins = items.insert(k, f);
    if k == 0 {
        assert(ins[0] == f);
    } else {
        assert(ins[0] == items[0]);
        assert(items.len() > 0);
        lemma_insert_skip1(items, k, f);
        lemma_bin_added_function_non_trivial(items.skip(1), k - 1, f);
    }
}

/// Law: a file with a top-level `main` whose body either has more than
/// `NEWLINE_LIMIT` newlines or does not contain the line-print macro name is
/// non-trivial, provided no function item before it is missing the name or
/// body field the scan reads first.
pub proof fn lemma_bin_flagged_main_non_trivial(items: Seq<SourceItemView>, k: int)
    requires
        0 <= k < items.len(),
        items[k].kind == "function_item"@,
        items[k].name == Some(main_name()),
        items[k].body matches Some(b) && (newline_count(b) > NEWLINE_LIMIT || !contains_sub(
            b,
            println_name(),
        )),
        forall|i: int|
            0 <= i < k && items[i].kind == "function_item"@ ==> items[i].name is Some,
        forall|i: int|
            0 <= i < k && items[i].kind == "function_item"@ && items[i].name == Some(main_name())
                ==> items[i].body is Some,
    ensures
        bin_scan(items) == Ok::<bool, ClassifyError>(true),
    decreases k,
{
    if k > 0 {
        let t = items[0];
        let tail = items.skip(1);
        assert forall|i: int|
            0 <= i < k - 1 && tail[i].kind == "function_item"@ implies tail[i].name is Some by {
            assert(tail[i] == items[i + 1]);
        }
        assert forall|i: int|
            0 <= i < k - 1 && tail[i].kind == "function_item"@ && tail[i].name == Some(main_name())
            implies tail[i].body is Some by {
            assert(tail[i] == items[i + 1]);
        }
        assert(tail[k - 1] == items[k]);
        if t.kind == "function_item"@ && (t.name matches Some(n) && n != main_name()) {
        } else {
            lemma_bin_flagged_main_non_trivial(tail, k - 1);
        }
    }
}

/// Law: a file none of whose top-level items carries an unrestricted public
/// visibility modifier is trivial for the library heuristic.
pub proof fn lemma_lib_no_pub_trivial(items: Seq<SourceItemView>)
    requires
        forall|i: int| 0 <= i < items.len() ==> !item_is_pub(items[i]),
    ensures
        !lib_scan(items),
{
}

/// Law: inserting a single public item of a consulted kind anywhere makes a
/// library file non-trivial.
pub proof fn lemma_lib_added_pub_non_trivial(items: Seq<SourceItemView>, k: int, t: SourceItemView)
    requires
        0 <= k <= items.len(),
        item_is_pub(t),
    ensures
        lib_scan(items.insert(k, t)),
{
    assert(items.insert(k, t)[k] == t);
}

} // verus!
