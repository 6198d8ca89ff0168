//! Aggregation of per-file verdicts into per-root and per-package verdicts,
//! and the output line each package gets.

use vstd::prelude::*;

use crate::discovery::clone_bytes;

verus! {

/// Whether some verdict in a list is non-trivial.
pub open spec fn any_true(vs: Seq<bool>) -> bool {
    exists|i: int| 0 <= i < vs.len() && vs[i]
}

/// A root is non-trivial exactly when one of its binary entry points is, or
/// its library entry point (when present) is.
pub fn root_has_non_trivial_code(bin_verdicts: &Vec<bool>, lib_verdict: &Option<bool>) -> (r: bool)
    ensures
        r == (any_true(bin_verdicts@) || *lib_verdict == Some(true)),
{
    if crate_has_non_trivial_code(bin_verdicts) {
        return true;
    }
    match lib_verdict {
        Some(v) => *v,
        None => false,
    }
}

/// A package is non-trivial exactly when one of its discovered root versions
/// is, even if all others are trivial.
pub fn crate_has_non_trivial_code(verdicts: &Vec<bool>) -> (r: bool)
    ensures
        r == any_true(verdicts@),
{
    let mut i: usize = 0;
    while i < verdicts.len()
        invariant
            i <= verdicts.len(),
            forall|k: int| 0 <= k < i ==> !verdicts@[k],
        decreases verdicts.len() - i,
    {
        if verdicts[i] {
            return true;
        }
        i = i + 1;
    }
    false
}

/// The prefix marking a non-trivial package in verbose output: `non trivial: `.
pub open spec fn non_trivial_prefix() -> Seq<u8> {
    seq![110u8, 111u8, 110u8, 32u8, 116u8, 114u8, 105u8, 118u8, 105u8, 97u8, 108u8, 58u8, 32u8]
}

/// The output line a package gets: a trivial package prints its bare name; a
/// non-trivial one prints prefixed in verbose mode and not at all otherwise.
pub fn render_line(name: &Vec<u8>, non_trivial: bool, verbose: bool) -> (r: Option<Vec<u8>>)
    ensures
        !non_trivial ==> (r matches Some(l) && l@ == name@),
        non_trivial && verbose ==> (r matches Some(l) && l@ == non_trivial_prefix() + name@),
        non_trivial && !verbose ==> r is None,
{
    if !non_trivial {
        Some(clone_bytes(name))
    } else if verbose {
        let mut line: Vec<u8> = vec![
            110u8,
            111u8,
            110u8,
            32u8,
            116u8,
            114u8,
            105u8,
            118u8,
            105u8,
            97u8,
            108u8,
            58u8,
            32u8,
        ];
        proof {
            assert(line@ =~= non_trivial_prefix() + name@.take(0));
        }
        let mut i: usize = 0;
        while i < name.len()
            invariant
                i <= name.len(),
                line@ == non_trivial_prefix() + name@.take(i as int),
            decreases name.len() - i,
        {
            line.push(name[i]);
            proof {
                assert((non_trivial_prefix() + name@.take(i as int)).push(name@[i as int])
                    =~= non_trivial_prefix() + name@.take(i + 1));
            }
            i = i + 1;
        }
        proof {
            assert(non_trivial_prefix() + name@.take(i as int) =~= non_trivial_prefix() + name@);
        }
        Some(line)
    } else {
        None
    }
}

} // verus!
