//! Entry-point resolution: which source files constitute a root's binary
//! targets and its library target. Declared paths are joined below the root
//! directory; where nothing is declared, the conventional `src/main.rs` and
//! `src/lib.rs` serve as fallbacks, each only if it exists on disk. Whether a
//! candidate file exists is a fact about the filesystem, so callers pass it in;
//! everything else is decided here.

use vstd::prelude::*;

use crate::discovery::{clone_bytes, Root, RootView};
use crate::manifest::{ids_view, path_view};

verus! {

/// The path separator.
pub open spec fn sep() -> Seq<u8> {
    seq![47u8]
}

/// The conventional binary entry point, relative to the root directory.
pub open spec fn default_main_rel() -> Seq<u8> {
    seq![115u8, 114u8, 99u8, 47u8, 109u8, 97u8, 105u8, 110u8, 46u8, 114u8, 115u8]
}

/// The conventional library entry point, relative to the root directory.
pub open spec fn default_lib_rel() -> Seq<u8> {
    seq![115u8, 114u8, 99u8, 47u8, 108u8, 105u8, 98u8, 46u8, 114u8, 115u8]
}

/// A directory joined with a relative path below it.
pub open spec fn spec_join(dir: Seq<u8>, rel: Seq<u8>) -> Seq<u8> {
    dir + sep() + rel
}

/// Joins a root directory with a declared relative path.
pub fn join_path(dir: &Vec<u8>, rel: &Vec<u8>) -> (r: Vec<u8>)
    ensures
        r@ == spec_join(dir@, rel@),
{
    let mut r = clone_bytes(dir);
    r.push(47u8);
    proof {
        assert(r@ =~= dir@ + sep() + rel@.take(0));
    }
    let mut i: usize = 0;
    while i < rel.len()
        invariant
            i <= rel.len(),
            r@ == dir@ + sep() + rel@.take(i as int),
        decreases rel.len() - i,
    {
        r.push(rel[i]);
        proof {
            assert((dir@ + sep() + rel@.take(i as int)).push(rel@[i as int]) =~= dir@ + sep()
                + rel@.take(i + 1));
        }
        i = i + 1;
    }
    proof {
        assert(dir@ + sep() + rel@.take(i as int) =~= spec_join(dir@, rel@));
    }
    r
}

/// The resolved paths of a declared binary list: each entry with a declared
/// path joined below the root directory, in declaration order; entries without
/// a path are skipped.
pub open spec fn declared_bin_paths(bins: Seq<Option<Seq<u8>>>, dir: Seq<u8>) -> Seq<Seq<u8>>
    decreases bins.len(),
{
    if bins.len() == 0 {
        Seq::empty()
    } else {
        match bins[0] {
            Some(p) => seq![spec_join(dir, p)] + declared_bin_paths(bins.skip(1), dir),
            None => declared_bin_paths(bins.skip(1), dir),
        }
    }
}

/// The binary entry points of a root: the declared list where it is non-empty,
/// else the conventional `src/main.rs` exactly when it exists.
pub open spec fn spec_bins(root: RootView, default_exists: bool) -> Seq<Seq<u8>> {
    match root.manifest.bins {
        Some(bs) => if bs.len() > 0 {
            declared_bin_paths(bs, root.dir)
        } else {
            spec_default_bins(root, default_exists)
        },
        None => spec_default_bins(root, default_exists),
    }
}

/// The fallback binary list: the conventional entry point if it exists.
pub open spec fn spec_default_bins(root: RootView, default_exists: bool) -> Seq<Seq<u8>> {
    if default_exists {
        seq![spec_join(root.dir, default_main_rel())]
    } else {
        Seq::empty()
    }
}

/// The declared library path of a root, joined below its directory.
pub open spec fn spec_declared_lib(root: RootView) -> Option<Seq<u8>> {
    match root.manifest.lib {
        Some(lp) => match lp {
            Some(p) => Some(spec_join(root.dir, p)),
            None => None,
        },
        None => None,
    }
}

/// The library entry point of a root: the declared path where it is given and
/// exists on disk, else the conventional `src/lib.rs` exactly when it exists.
pub open spec fn spec_lib(root: RootView, declared_exists: bool, default_exists: bool) -> Option<
    Seq<u8>,
> {
    if spec_declared_lib(root) is Some && declared_exists {
        spec_declared_lib(root)
    } else if default_exists {
        Some(spec_join(root.dir, default_lib_rel()))
    } else {
        None
    }
}

/// The conventional binary entry point as a byte string.
pub fn default_main_rel_exec() -> (r: Vec<u8>)
    ensures
        r@ == default_main_rel(),
{
    let v: Vec<u8> = vec![115u8, 114u8, 99u8, 47u8, 109u8, 97u8, 105u8, 110u8, 46u8, 114u8, 115u8];
    v
}

/// The conventional library entry point as a byte string.
pub fn default_lib_rel_exec() -> (r: Vec<u8>)
    ensures
        r@ == default_lib_rel(),
{
    let v: Vec<u8> = vec![115u8, 114u8, 99u8, 47u8, 108u8, 105u8, 98u8, 46u8, 114u8, 115u8];
    v
}

impl Root {
    /// The conventional binary entry point below this root, for the caller to
    /// test for existence.
    pub fn default_bin_path(&self) -> (r: Vec<u8>)
        ensures
            r@ == spec_join(self@.dir, default_main_rel()),
    {
        let rel = default_main_rel_exec();
        join_path(&self.dir, &rel)
    }

    /// The conventional library entry point below this root, for the caller to
    /// test for existence.
    pub fn default_lib_path(&self) -> (r: Vec<u8>)
        ensures
            r@ == spec_join(self@.dir, default_lib_rel()),
    {
        let rel = default_lib_rel_exec();
        join_path(&self.dir, &rel)
    }

    /// The declared library path joined below this root, if the manifest
    /// declares one, for the caller to test for existence.
    pub fn declared_lib_path(&self) -> (r: Option<Vec<u8>>)
        ensures
            path_view(r) == spec_declared_lib(self@),
    {
        match &self.manifest.lib {
            Some(lp) => match &lp.path {
                Some(p) => Some(join_path(&self.dir, p)),
                None => None,
            },
            None => None,
        }
    }

    /// The binary entry points of this root. `default_exists` reports whether
    /// the conventional `src/main.rs` below the root directory exists on disk.
    pub fn bins(&self, default_exists: bool) -> (r: Vec<Vec<u8>>)
        ensures
            ids_view(r@) == spec_bins(self@, default_exists),
    {
        match &self.manifest.bins {
            Some(bs) => {
                if bs.len() > 0 {
                    let ghost bv = self@.manifest.bins.unwrap();
                    let mut out: Vec<Vec<u8>> = Vec::new();
                    let mut i: usize = 0;
                    proof {
                        assert(bv.skip(0) =~= bv);
                        assert(ids_view(out@) + declared_bin_paths(bv, self@.dir)
                            =~= declared_bin_paths(bv, self@.dir));
                    }
                    while i < bs.len()
                        invariant
                            bv == self@.manifest.bins.unwrap(),
                            bv.len() == bs@.len(),
                            forall|k: int|
                                0 <= k < bs@.len() ==> bv[k] == crate::manifest::path_view(
                                    #[trigger] bs@[k].path,
                                ),
                            i <= bs.len(),
                            declared_bin_paths(bv, self@.dir) == ids_view(out@)
                                + declared_bin_paths(bv.skip(i as int), self@.dir),
                        decreases bs.len() - i,
                    {
                        proof {
                            assert(bv.skip(i as int)[0] == bv[i as int]);
                            assert(bv.skip(i as int).skip(1) =~= bv.skip(i + 1));
                        }
                        match &bs[i].path {
                            Some(p) => {
                                let joined = join_path(&self.dir, p);
                                proof {
                                    assert(ids_view(out@.push(joined)) =~= ids_view(out@).push(
                                        joined@,
                                    ));
                                    assert(ids_view(out@) + (seq![spec_join(self@.dir, p@)]
                                        + declared_bin_paths(bv.skip(i + 1), self@.dir))
                                        =~= ids_view(out@).push(joined@) + declared_bin_paths(
                                        bv.skip(i + 1),
                                        self@.dir,
                                    ));
                                }
                                out.push(joined);
                            },
                            None => {},
                        }
                        i = i + 1;
                    }
                    proof {
                        assert(bv.skip(i as int) =~= Seq::<Option<Seq<u8>>>::empty());
                        assert(ids_view(out@) + declared_bin_paths(bv.skip(i as int), self@.dir)
                            =~= ids_view(out@));
                    }
                    out
                } else {
                    self.default_bins(default_exists)
                }
            },
            None => self.default_bins(default_exists),
        }
    }

    /// The fallback binary list: the conventional entry point if it exists.
    fn default_bins(&self, default_exists: bool) -> (r: Vec<Vec<u8>>)
        ensures
            ids_view(r@) == spec_default_bins(self@, default_exists),
    {
        let mut out: Vec<Vec<u8>> = Vec::new();
        if default_exists {
            out.push(self.default_bin_path());
        }
        proof {
            if default_exists {
                assert(ids_view(out@) =~= spec_default_bins(self@, true));
            } else {
                assert(ids_view(out@) =~= spec_default_bins(self@, false));
            }
        }
        out
    }

    /// The library entry point of this root. `declared_exists` reports whether
    /// the declared library path (if any) exists on disk; `default_exists`,
    /// whether the conventional `src/lib.rs` does.
    pub fn lib(&self, declared_exists: bool, default_exists: bool) -> (r: Option<Vec<u8>>)
        ensures
            path_view(r) == spec_lib(self@, declared_exists, default_exists),
    {
        let declared = self.declared_lib_path();
        match declared {
            Some(p) => {
                if declared_exists {
                    return Some(p);
                }
                if default_exists {
                    Some(self.default_lib_path())
                } else {
                    None
                }
            },
            None => {
                if default_exists {
                    Some(self.default_lib_path())
                } else {
                    None
                }
            },
        }
    }
}

} // verus!
