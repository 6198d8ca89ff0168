//! The package-metadata record a manifest file declares: name, semantic
//! version, optional library path, optional binary paths. Equality is
//! structural over every field; ordering is lexicographic by name and then by
//! semantic-version precedence (major, minor, patch, then pre-release
//! identifiers; build metadata is part of identity but carries no precedence).

use vstd::prelude::*;

use crate::order::{
    bytes_cmp, bytes_cmp_exec, bytes_eq, lemma_bytes_cmp_eq, lemma_bytes_cmp_flip,
    lemma_bytes_cmp_trans, flip, Order,
};

verus! {

/// A semantic version: numeric triple, pre-release identifiers (dot-separated
/// in source text, already split here; empty means a plain release), and raw
/// build metadata text.
pub struct Version {
    pub major: u64,
    pub minor: u64,
    pub patch: u64,
    pub pre: Vec<Vec<u8>>,
    pub build: Vec<u8>,
}

/// A declared library target: an optional source path.
pub struct LibDecl {
    pub path: Option<Vec<u8>>,
}

/// A declared binary target: an optional source path.
pub struct BinDecl {
    pub path: Option<Vec<u8>>,
}

/// The required identity fields of a manifest.
pub struct Package {
    pub name: Vec<u8>,
    pub version: Version,
}

/// A package manifest.
pub struct Manifest {
    pub package: Package,
    pub lib: Option<LibDecl>,
    pub bins: Option<Vec<BinDecl>>,
}

/// Mathematical image of a `Version`.
#[verifier::ext_equal]
pub ghost struct VersionView {
    pub major: u64,
    pub minor: u64,
    pub patch: u64,
    pub pre: Seq<Seq<u8>>,
    pub build: Seq<u8>,
}

/// Mathematical image of a `Package`.
#[verifier::ext_equal]
pub ghost struct PackageView {
    pub name: Seq<u8>,
    pub version: VersionView,
}

/// Mathematical image of a `Manifest`.
#[verifier::ext_equal]
pub ghost struct ManifestView {
    pub package: PackageView,
    pub lib: Option<Option<Seq<u8>>>,
    pub bins: Option<Seq<Option<Seq<u8>>>>,
}

/// The image of an optional path.
pub open spec fn path_view(p: Option<Vec<u8>>) -> Option<Seq<u8>> {
    match p {
        Some(v) => Some(v@),
        None => None,
    }
}

impl View for Version {
    type V = VersionView;

    open spec fn view(&self) -> VersionView {
        VersionView {
            major: self.major,
            minor: self.minor,
            patch: self.patch,
            pre: self.pre@.map_values(|id: Vec<u8>| id@),
            build: self.build@,
        }
    }
}

impl View for Package {
    type V = PackageView;

    open spec fn view(&self) -> PackageView {
        PackageView { name: self.name@, version: self.version@ }
    }
}

impl View for Manifest {
    type V = ManifestView;

    open spec fn view(&self) -> ManifestView {
        ManifestView {
            package: self.package@,
            lib: match self.lib {
                Some(l) => Some(path_view(l.path)),
                None => None,
            },
            bins: match self.bins {
                Some(bs) => Some(bs@.map_values(|b: BinDecl| path_view(b.path))),
                None => None,
            },
        }
    }
}

/// Whether a pre-release identifier consists of digits alone.
pub open spec fn ident_is_numeric(id: Seq<u8>) -> bool {
    forall|i: int| 0 <= i < id.len() ==> 48 <= #[trigger] id[i] <= 57
}

/// Semantic-version precedence of two pre-release identifiers: identifiers of
/// digits alone compare numerically (no leading zeroes, so by length and then
/// lexically), numeric identifiers precede alphanumeric ones, and alphanumeric
/// identifiers compare lexically in ASCII order.
pub open spec fn ident_cmp(a: Seq<u8>, b: Seq<u8>) -> Order {
    if ident_is_numeric(a) && ident_is_numeric(b) {
        if a.len() < b.len() {
            Order::Less
        } else if b.len() < a.len() {
            Order::Greater
        } else {
            bytes_cmp(a, b)
        }
    } else if ident_is_numeric(a) {
        Order::Less
    } else if ident_is_numeric(b) {
        Order::Greater
    } else {
        bytes_cmp(a, b)
    }
}

/// Identifier-by-identifier precedence of two identifier lists; a list that is
/// a strict prefix of the other precedes it.
pub open spec fn ids_cmp(a: Seq<Seq<u8>>, b: Seq<Seq<u8>>) -> Order
    decreases a.len(),
{
    if a.len() == 0 && b.len() == 0 {
        Order::Equal
    } else if a.len() == 0 {
        Order::Less
    } else if b.len() == 0 {
        Order::Greater
    } else if ident_cmp(a[0], b[0]) == Order::Equal {
        ids_cmp(a.skip(1), b.skip(1))
    } else {
        ident_cmp(a[0], b[0])
    }
}

/// Pre-release precedence: a plain release (no identifiers) follows every
/// pre-release; two pre-releases compare identifier by identifier.
pub open spec fn pre_cmp(a: Seq<Seq<u8>>, b: Seq<Seq<u8>>) -> Order {
    if a.len() == 0 && b.len() == 0 {
        Order::Equal
    } else if a.len() == 0 {
        Order::Greater
    } else if b.len() == 0 {
        Order::Less
    } else {
        ids_cmp(a, b)
    }
}

/// Numeric order as a comparison result.
pub open spec fn u64_cmp(a: u64, b: u64) -> Order {
    if a < b {
        Order::Less
    } else if b < a {
        Order::Greater
    } else {
        Order::Equal
    }
}

/// What semantic-version precedence consults: everything but build metadata.
pub open spec fn version_key(v: VersionView) -> (u64, u64, u64, Seq<Seq<u8>>) {
    (v.major, v.minor, v.patch, v.pre)
}

/// Precedence over version keys.
pub open spec fn version_key_cmp(
    a: (u64, u64, u64, Seq<Seq<u8>>),
    b: (u64, u64, u64, Seq<Seq<u8>>),
) -> Order {
    if a.0 != b.0 {
        u64_cmp(a.0, b.0)
    } else if a.1 != b.1 {
        u64_cmp(a.1, b.1)
    } else if a.2 != b.2 {
        u64_cmp(a.2, b.2)
    } else {
        pre_cmp(a.3, b.3)
    }
}

/// Semantic-version precedence.
pub open spec fn version_cmp(a: VersionView, b: VersionView) -> Order {
    version_key_cmp(version_key(a), version_key(b))
}

/// What the manifest ordering consults: the name, then the version key.
pub open spec fn manifest_key(m: ManifestView) -> (Seq<u8>, (u64, u64, u64, Seq<Seq<u8>>)) {
    (m.package.name, version_key(m.package.version))
}

/// Manifest ordering: lexicographic by name, then semantic-version precedence.
pub open spec fn manifest_cmp(a: ManifestView, b: ManifestView) -> Order {
    if bytes_cmp(a.package.name, b.package.name) != Order::Equal {
        bytes_cmp(a.package.name, b.package.name)
    } else {
        version_cmp(a.package.version, b.package.version)
    }
}

/// Two identifiers compare `Equal` exactly when they are the same.
pub proof fn lemma_ident_cmp_eq(a: Seq<u8>, b: Seq<u8>)
    ensures
        ident_cmp(a, b) == Order::Equal <==> a == b,
{
    lemma_bytes_cmp_eq(a, b);
}

/// Swapping identifier operands flips the result.
pub proof fn lemma_ident_cmp_flip(a: Seq<u8>, b: Seq<u8>)
    ensures
        ident_cmp(b, a) == flip(ident_cmp(a, b)),
{
    lemma_bytes_cmp_flip(a, b);
}

/// Strict identifier precedence is transitive.
pub proof fn lemma_ident_cmp_trans(a: Seq<u8>, b: Seq<u8>, c: Seq<u8>)
    requires
        ident_cmp(a, b) == Order::Less,
        ident_cmp(b, c) == Order::Less,
    ensures
        ident_cmp(a, c) == Order::Less,
{
    if ident_is_numeric(a) && ident_is_numeric(b) && ident_is_numeric(c) {
        if a.len() == b.len() && b.len() == c.len() {
            lemma_bytes_cmp_trans(a, b, c);
        }
    } else if !ident_is_numeric(a) && !ident_is_numeric(b) && !ident_is_numeric(c) {
        lemma_bytes_cmp_trans(a, b, c);
    }
}

/// Two identifier lists compare `Equal` exactly when they are the same.
pub proof fn lemma_ids_cmp_eq(a: Seq<Seq<u8>>, b: Seq<Seq<u8>>)
    ensures
        ids_cmp(a, b) == Order::Equal <==> a == b,
    decreases a.len(),
{
    if a.len() == 0 && b.len() == 0 {
        assert(a =~= b);
    } else if a.len() != 0 && b.len() != 0 {
        lemma_ident_cmp_eq(a[0], b[0]);
        lemma_ids_cmp_eq(a.skip(1), b.skip(1));
        if ids_cmp(a, b) == Order::Equal {
            assert(a =~= a.skip(1).insert(0, a[0]));
            assert(b =~= b.skip(1).insert(0, b[0]));
        }
        if a == b {
            assert(a.skip(1) =~= b.skip(1));
        }
    } else {
        assert(a.len() != b.len());
    }
}

/// Swapping identifier-list operands flips the result.
pub proof fn lemma_ids_cmp_flip(a: Seq<Seq<u8>>, b: Seq<Seq<u8>>)
    ensures
        ids_cmp(b, a) == flip(ids_cmp(a, b)),
    decreases a.len(),
{
    if a.len() != 0 && b.len() != 0 {
        lemma_ident_cmp_flip(a[0], b[0]);
        lemma_ident_cmp_eq(a[0], b[0]);
        lemma_ident_cmp_eq(b[0], a[0]);
        lemma_ids_cmp_flip(a.skip(1), b.skip(1));
    }
}

/// Strict identifier-list precedence is transitive.
pub proof fn lemma_ids_cmp_trans(a: Seq<Seq<u8>>, b: Seq<Seq<u8>>, c: Seq<Seq<u8>>)
    requires
        ids_cmp(a, b) == Order::Less,
        ids_cmp(b, c) == Order::Less,
    ensures
        ids_cmp(a, c) == Order::Less,
    decreases a.len(),
{
    if a.len() != 0 && b.len() != 0 && c.len() != 0 {
        lemma_ident_cmp_eq(a[0], b[0]);
        lemma_ident_cmp_eq(b[0], c[0]);
        lemma_ident_cmp_eq(a[0], c[0]);
        if ident_cmp(a[0], b[0]) == Order::Equal && ident_cmp(b[0], c[0]) == Order::Equal {
            lemma_ids_cmp_trans(a.skip(1), b.skip(1), c.skip(1));
        } else if ident_cmp(a[0], b[0]) == Order::Equal {
            assert(a[0] == b[0]);
        } else if ident_cmp(b[0], c[0]) == Order::Equal {
            assert(b[0] == c[0]);
        } else {
            lemma_ident_cmp_trans(a[0], b[0], c[0]);
        }
    }
}

/// Two pre-release lists compare `Equal` exactly when they are the same.
pub proof fn lemma_pre_cmp_eq(a: Seq<Seq<u8>>, b: Seq<Seq<u8>>)
    ensures
        pre_cmp(a, b) == Order::Equal <==> a == b,
{
    lemma_ids_cmp_eq(a, b);
    if a.len() == 0 && b.len() == 0 {
        assert(a =~= b);
    }
}

/// Swapping pre-release operands flips the result.
pub proof fn lemma_pre_cmp_flip(a: Seq<Seq<u8>>, b: Seq<Seq<u8>>)
    ensures
        pre_cmp(b, a) == flip(pre_cmp(a, b)),
{
    lemma_ids_cmp_flip(a, b);
}

/// Strict pre-release precedence is transitive.
pub proof fn lemma_pre_cmp_trans(a: Seq<Seq<u8>>, b: Seq<Seq<u8>>, c: Seq<Seq<u8>>)
    requires
        pre_cmp(a, b) == Order::Less,
        pre_cmp(b, c) == Order::Less,
    ensures
        pre_cmp(a, c) == Order::Less,
{
    if a.len() != 0 && b.len() != 0 && c.len() != 0 {
        lemma_ids_cmp_trans(a, b, c);
    }
}

/// Two manifests compare `Equal` exactly when their keys (name and version
/// without build metadata) are the same.
pub proof fn lemma_manifest_cmp_eq(a: ManifestView, b: ManifestView)
    ensures
        manifest_cmp(a, b) == Order::Equal <==> manifest_key(a) == manifest_key(b),
{
    lemma_bytes_cmp_eq(a.package.name, b.package.name);
    lemma_pre_cmp_eq(a.package.version.pre, b.package.version.pre);
}

/// Swapping manifest operands flips the result.
pub proof fn lemma_manifest_cmp_flip(a: ManifestView, b: ManifestView)
    ensures
        manifest_cmp(b, a) == flip(manifest_cmp(a, b)),
{
    lemma_bytes_cmp_flip(a.package.name, b.package.name);
    lemma_bytes_cmp_eq(a.package.name, b.package.name);
    lemma_bytes_cmp_eq(b.package.name, a.package.name);
    lemma_pre_cmp_flip(a.package.version.pre, b.package.version.pre);
}

/// Strict version-key precedence is transitive.
pub proof fn lemma_version_key_cmp_trans(
    a: (u64, u64, u64, Seq<Seq<u8>>),
    b: (u64, u64, u64, Seq<Seq<u8>>),
    c: (u64, u64, u64, Seq<Seq<u8>>),
)
    requires
        version_key_cmp(a, b) == Order::Less,
        version_key_cmp(b, c) == Order::Less,
    ensures
        version_key_cmp(a, c) == Order::Less,
{
    if a.0 == b.0 && b.0 == c.0 && a.1 == b.1 && b.1 == c.1 && a.2 == b.2 && b.2 == c.2 {
        lemma_pre_cmp_trans(a.3, b.3, c.3);
    }
}

/// Strict manifest precedence is transitive.
pub proof fn lemma_manifest_cmp_trans(a: ManifestView, b: ManifestView, c: ManifestView)
    requires
        manifest_cmp(a, b) == Order::Less,
        manifest_cmp(b, c) == Order::Less,
    ensures
        manifest_cmp(a, c) == Order::Less,
{
    lemma_bytes_cmp_eq(a.package.name, b.package.name);
    lemma_bytes_cmp_eq(b.package.name, c.package.name);
    lemma_bytes_cmp_eq(a.package.name, c.package.name);
    if bytes_cmp(a.package.name, b.package.name) == Order::Equal {
        assert(a.package.name == b.package.name);
    } else if bytes_cmp(b.package.name, c.package.name) == Order::Equal {
        assert(b.package.name == c.package.name);
    } else {
        lemma_bytes_cmp_trans(a.package.name, b.package.name, c.package.name);
    }
    if bytes_cmp(a.package.name, b.package.name) == Order::Equal && bytes_cmp(
        b.package.name,
        c.package.name,
    ) == Order::Equal {
        lemma_version_key_cmp_trans(
            version_key(a.package.version),
            version_key(b.package.version),
            version_key(c.package.version),
        );
    }
}

/// Non-strict manifest precedence is transitive: the fact that keeps a group
/// sorted as members are inserted.
pub proof fn lemma_manifest_cmp_le_trans(a: ManifestView, b: ManifestView, c: ManifestView)
    requires
        manifest_cmp(a, b) != Order::Greater,
        manifest_cmp(b, c) != Order::Greater,
    ensures
        manifest_cmp(a, c) != Order::Greater,
{
    lemma_manifest_cmp_eq(a, b);
    lemma_manifest_cmp_eq(b, c);
    lemma_manifest_cmp_eq(a, c);
    if manifest_cmp(a, b) == Order::Equal {
        assert(manifest_key(a) == manifest_key(b));
        assert(manifest_cmp(a, c) == manifest_cmp(b, c)) by {
            assert(a.package.name == b.package.name);
            assert(a.package.version.pre == b.package.version.pre);
        }
    } else if manifest_cmp(b, c) == Order::Equal {
        assert(manifest_cmp(a, c) == manifest_cmp(a, b)) by {
            assert(b.package.name == c.package.name);
            assert(b.package.version.pre == c.package.version.pre);
        }
    } else {
        lemma_manifest_cmp_trans(a, b, c);
    }
}

/// Decides whether an identifier consists of digits alone.
pub fn ident_is_numeric_exec(id: &Vec<u8>) -> (r: bool)
    ensures
        r == ident_is_numeric(id@),
{
    let mut i: usize = 0;
    while i < id.len()
        invariant
            i <= id.len(),
            forall|k: int| 0 <= k < i ==> 48 <= #[trigger] id@[k] <= 57,
        decreases id.len() - i,
    {
        if id[i] < 48 || id[i] > 57 {
            return false;
        }
        i = i + 1;
    }
    true
}

/// Compares two pre-release identifiers by semantic-version precedence.
pub fn ident_cmp_exec(a: &Vec<u8>, b: &Vec<u8>) -> (r: Order)
    ensures
        r == ident_cmp(a@, b@),
{
    let na = ident_is_numeric_exec(a);
    let nb = ident_is_numeric_exec(b);
    if na && nb {
        if a.len() < b.len() {
            Order::Less
        } else if b.len() < a.len() {
            Order::Greater
        } else {
            bytes_cmp_exec(a, b)
        }
    } else if na {
        Order::Less
    } else if nb {
        Order::Greater
    } else {
        bytes_cmp_exec(a, b)
    }
}

/// The images of a list of identifiers.
pub open spec fn ids_view(ids: Seq<Vec<u8>>) -> Seq<Seq<u8>> {
    ids.map_values(|id: Vec<u8>| id@)
}

/// Compares two identifier lists by semantic-version precedence.
pub fn ids_cmp_exec(a: &Vec<Vec<u8>>, b: &Vec<Vec<u8>>) -> (r: Order)
    ensures
        r == ids_cmp(ids_view(a@), ids_view(b@)),
{
    let ghost av = ids_view(a@);
    let ghost bv = ids_view(b@);
    let mut i: usize = 0;
    proof {
        assert(av.skip(0) =~= av);
        assert(bv.skip(0) =~= bv);
    }
    while i < a.len() && i < b.len()
        invariant
            av == ids_view(a@),
            bv == ids_view(b@),
            av.len() == a@.len(),
            bv.len() == b@.len(),
            i <= a.len(),
            i <= b.len(),
            ids_cmp(av, bv) == ids_cmp(av.skip(i as int), bv.skip(i as int)),
        decreases a.len() - i,
    {
        proof {
            assert(av.skip(i as int)[0] == av[i as int]);
            assert(bv.skip(i as int)[0] == bv[i as int]);
            assert(av[i as int] == a@[i as int]@);
            assert(bv[i as int] == b@[i as int]@);
            assert(av.skip(i as int).skip(1) =~= av.skip(i + 1));
            assert(bv.skip(i as int).skip(1) =~= bv.skip(i + 1));
        }
        let o = ident_cmp_exec(&a[i], &b[i]);
        match o {
            Order::Equal => {},
            _ => {
                return o;
            },
        }
        i = i + 1;
    }
    if a.len() < b.len() {
        Order::Less
    } else if b.len() < a.len() {
        Order::Greater
    } else {
        Order::Equal
    }
}

/// Compares two versions by semantic-version precedence.
pub fn version_cmp_exec(a: &Version, b: &Version) -> (r: Order)
    ensures
        r == version_cmp(a@, b@),
{
    if a.major != b.major {
        if a.major < b.major {
            Order::Less
        } else {
            Order::Greater
        }
    } else if a.minor != b.minor {
        if a.minor < b.minor {
            Order::Less
        } else {
            Order::Greater
        }
    } else if a.patch != b.patch {
        if a.patch < b.patch {
            Order::Less
        } else {
            Order::Greater
        }
    } else {
        let ea = a.pre.len() == 0;
        let eb = b.pre.len() == 0;
        if ea && eb {
            Order::Equal
        } else if ea {
            Order::Greater
        } else if eb {
            Order::Less
        } else {
            ids_cmp_exec(&a.pre, &b.pre)
        }
    }
}

/// Compares two manifests: lexicographically by name, then by version
/// precedence; the comparator behind group ordering.
pub fn manifest_cmp_exec(a: &Manifest, b: &Manifest) -> (r: Order)
    ensures
        r == manifest_cmp(a@, b@),
{
    match bytes_cmp_exec(&a.package.name, &b.package.name) {
        Order::Equal => version_cmp_exec(&a.package.version, &b.package.version),
        o => o,
    }
}

impl Manifest {
    /// Manifests order by name and then by semantic-version precedence.
    pub fn cmp(&self, other: &Manifest) -> (r: Order)
        ensures
            r == manifest_cmp(self@, other@),
    {
        manifest_cmp_exec(self, other)
    }
}

/// Decides equality of two identifier lists.
pub fn ids_eq_exec(a: &Vec<Vec<u8>>, b: &Vec<Vec<u8>>) -> (r: bool)
    ensures
        r == (ids_view(a@) == ids_view(b@)),
{
    if a.len() != b.len() {
        assert(ids_view(a@).len() != ids_view(b@).len());
        return false;
    }
    let mut i: usize = 0;
    while i < a.len()
        invariant
            a@.len() == b@.len(),
            i <= a.len(),
            forall|k: int| 0 <= k < i ==> ids_view(a@)[k] == ids_view(b@)[k],
        decreases a.len() - i,
    {
        proof {
            assert(ids_view(a@)[i as int] == a@[i as int]@);
            assert(ids_view(b@)[i as int] == b@[i as int]@);
        }
        if !bytes_eq(&a[i], &b[i]) {
            return false;
        }
        i = i + 1;
    }
    proof {
        assert(ids_view(a@) =~= ids_view(b@));
    }
    true
}

/// Decides full structural equality of two versions, build metadata too.
pub fn version_eq_exec(a: &Version, b: &Version) -> (r: bool)
    ensures
        r == (a@ == b@),
{
    if a.major != b.major || a.minor != b.minor || a.patch != b.patch {
        return false;
    }
    if !ids_eq_exec(&a.pre, &b.pre) {
        return false;
    }
    if !bytes_eq(&a.build, &b.build) {
        return false;
    }
    proof {
        assert(a@ =~= b@);
    }
    true
}

/// The image of a declared binary list.
pub open spec fn bins_view(bs: Seq<BinDecl>) -> Seq<Option<Seq<u8>>> {
    bs.map_values(|b: BinDecl| path_view(b.path))
}

/// Decides equality of two optional paths.
pub fn path_eq_exec(a: &Option<Vec<u8>>, b: &Option<Vec<u8>>) -> (r: bool)
    ensures
        r == (path_view(*a) == path_view(*b)),
{
    match (a, b) {
        (None, None) => true,
        (Some(x), Some(y)) => bytes_eq(x, y),
        _ => false,
    }
}

/// Decides full structural equality of two manifests: the identity under which
/// discovered roots are deduplicated.
pub fn manifest_eq_exec(a: &Manifest, b: &Manifest) -> (r: bool)
    ensures
        r == (a@ == b@),
{
    if !bytes_eq(&a.package.name, &b.package.name) {
        return false;
    }
    if !version_eq_exec(&a.package.version, &b.package.version) {
        return false;
    }
    let lib_ok = match (&a.lib, &b.lib) {
        (None, None) => true,
        (Some(x), Some(y)) => path_eq_exec(&x.path, &y.path),
        _ => false,
    };
    if !lib_ok {
        return false;
    }
    match (&a.bins, &b.bins) {
        (None, None) => {
            proof {
                assert(a@ =~= b@);
            }
            true
        },
        (Some(x), Some(y)) => {
            if x.len() != y.len() {
                assert(a@.bins.unwrap().len() != b@.bins.unwrap().len());
                return false;
            }
            let mut i: usize = 0;
            while i < x.len()
                invariant
                    x@.len() == y@.len(),
                    i <= x.len(),
                    a@.bins == Some(bins_view(x@)),
                    b@.bins == Some(bins_view(y@)),
                    forall|k: int| 0 <= k < i ==> bins_view(x@)[k] == bins_view(y@)[k],
                decreases x.len() - i,
            {
                proof {
                    assert(bins_view(x@)[i as int] == path_view(x@[i as int].path));
                    assert(bins_view(y@)[i as int] == path_view(y@[i as int].path));
                }
                if !path_eq_exec(&x[i].path, &y[i].path) {
                    return false;
                }
                i = i + 1;
            }
            proof {
                assert(bins_view(x@) =~= bins_view(y@));
                assert(a@ =~= b@);
            }
            true
        },
        _ => false,
    }
}

} // verus!
