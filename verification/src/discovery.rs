//! Root discovery bookkeeping: recognising manifest file names, package roots,
//! the ordered deduplicating group of roots sharing one declared name, and the
//! scan index mapping each name to its group. A group collapses roots whose
//! manifests are entirely identical, keeps distinct manifests apart, and stays
//! sorted by the manifest ordering; the index keeps one entry per name, in
//! first-seen order.

use vstd::prelude::*;

use crate::manifest::{
    lemma_manifest_cmp_eq, lemma_manifest_cmp_flip, lemma_manifest_cmp_le_trans, manifest_cmp,
    manifest_cmp_exec, manifest_eq_exec, version_cmp, version_key, Manifest, ManifestView,
};
use crate::order::{bytes_eq, lemma_bytes_cmp_eq, Order};

verus! {

/// The accepted manifest file name spelled with a capital letter.
pub open spec fn manifest_name_upper() -> Seq<u8> {
    seq![67u8, 97u8, 114u8, 103u8, 111u8, 46u8, 116u8, 111u8, 109u8, 108u8]
}

/// The accepted manifest file name spelled in lower case.
pub open spec fn manifest_name_lower() -> Seq<u8> {
    seq![99u8, 97u8, 114u8, 103u8, 111u8, 46u8, 116u8, 111u8, 109u8, 108u8]
}

/// Whether a file name is one of the two accepted manifest spellings, and no
/// other case variant.
pub open spec fn is_manifest_name(name: Seq<u8>) -> bool {
    name == manifest_name_upper() || name == manifest_name_lower()
}

/// Decides whether a file name denotes a manifest.
pub fn is_manifest(name: &Vec<u8>) -> (r: bool)
    ensures
        r == is_manifest_name(name@),
{
    let upper: Vec<u8> = vec![67u8, 97u8, 114u8, 103u8, 111u8, 46u8, 116u8, 111u8, 109u8, 108u8];
    let lower: Vec<u8> = vec![99u8, 97u8, 114u8, 103u8, 111u8, 46u8, 116u8, 111u8, 109u8, 108u8];
    bytes_eq(name, &upper) || bytes_eq(name, &lower)
}

/// A discovered package root: the directory that held the manifest, and the
/// manifest itself. Identity and ordering delegate to the manifest alone, so
/// two roots with identical manifests collapse even at different directories.
pub struct Root {
    pub dir: Vec<u8>,
    pub manifest: Manifest,
}

/// Mathematical image of a `Root`.
#[verifier::ext_equal]
pub ghost struct RootView {
    pub dir: Seq<u8>,
    pub manifest: ManifestView,
}

impl View for Root {
    type V = RootView;

    open spec fn view(&self) -> RootView {
        RootView { dir: self.dir@, manifest: self.manifest@ }
    }
}

impl Root {
    /// Roots compare by their manifests alone.
    pub fn cmp(&self, other: &Root) -> (r: Order)
        ensures
            r == manifest_cmp(self@.manifest, other@.manifest),
    {
        manifest_cmp_exec(&self.manifest, &other.manifest)
    }

    /// Roots are the same root exactly when their manifests are entirely
    /// identical, wherever they were found.
    pub fn eq(&self, other: &Root) -> (r: bool)
        ensures
            r == (self@.manifest == other@.manifest),
    {
        manifest_eq_exec(&self.manifest, &other.manifest)
    }
}

/// Well-formedness of a group's members: sorted by the manifest ordering, and
/// no two members with entirely identical manifests.
pub open spec fn group_wf(s: Seq<RootView>) -> bool {
    (forall|i: int, j: int|
        0 <= i < j < s.len() ==> #[trigger] manifest_cmp(s[i].manifest, s[j].manifest)
            != Order::Greater) && (forall|i: int, j: int|
        0 <= i < j < s.len() ==> #[trigger] s[i].manifest != #[trigger] s[j].manifest)
}

/// The functional model of inserting a root into a sorted deduplicated group:
/// members that do not follow the new root are kept first; a member whose
/// manifest is entirely identical absorbs the insertion; otherwise the root
/// lands before the first member that follows it (after its equals, keeping
/// insertion order among roots the ordering cannot separate).
pub open spec fn group_insert(s: Seq<RootView>, r: RootView) -> Seq<RootView>
    decreases s.len(),
{
    if s.len() == 0 {
        seq![r]
    } else if s[0].manifest == r.manifest {
        s
    } else if manifest_cmp(s[0].manifest, r.manifest) == Order::Greater {
        seq![r] + s
    } else {
        seq![s[0]] + group_insert(s.skip(1), r)
    }
}

/// Every member of a group after an insertion is an old member or the root
/// just inserted.
pub proof fn lemma_group_insert_elems(s: Seq<RootView>, r: RootView)
    ensures
        forall|k: int|
            0 <= k < group_insert(s, r).len() ==> (exists|i: int|
                0 <= i < s.len() && #[trigger] group_insert(s, r)[k] == s[i]) || group_insert(
                s,
                r,
            )[k] == r,
    decreases s.len(),
{
    let t = group_insert(s, r);
    if s.len() == 0 {
    } else if s[0].manifest == r.manifest {
    } else if manifest_cmp(s[0].manifest, r.manifest) == Order::Greater {
    } else {
        lemma_group_insert_elems(s.skip(1), r);
        assert forall|k: int| 0 <= k < t.len() implies (exists|i: int|
            0 <= i < s.len() && #[trigger] t[k] == s[i]) || t[k] == r by {
            if k == 0 {
                assert(t[0] == s[0]);
            } else {
                let tail = group_insert(s.skip(1), r);
                assert(t[k] == tail[k - 1]);
                if exists|i: int| 0 <= i < s.skip(1).len() && tail[k - 1] == s.skip(1)[i] {
                    let i = choose|i: int| 0 <= i < s.skip(1).len() && tail[k - 1] == s.skip(1)[i];
                    assert(s.skip(1)[i] == s[i + 1]);
                }
            }
        }
    }
}

/// Inserting preserves the group invariant.
pub proof fn lemma_group_insert_wf(s: Seq<RootView>, r: RootView)
    requires
        group_wf(s),
    ensures
        group_wf(group_insert(s, r)),
    decreases s.len(),
{
    let t = group_insert(s, r);
    if s.len() == 0 {
    } else if s[0].manifest == r.manifest {
    } else if manifest_cmp(s[0].manifest, r.manifest) == Order::Greater {
        assert forall|j: int| 1 <= j < t.len() implies manifest_cmp(t[0].manifest, t[j].manifest)
            != Order::Greater && t[0].manifest != t[j].manifest by {
            assert(t[j] == s[j - 1]);
            lemma_manifest_cmp_flip(s[0].manifest, r.manifest);
            if j >= 2 {
                lemma_manifest_cmp_le_trans(r.manifest, s[0].manifest, s[j - 1].manifest);
            }
            if r.manifest == s[j - 1].manifest {
                // then the head could not have followed the root
                if j >= 2 {
                    assert(manifest_cmp(s[0].manifest, s[j - 1].manifest) != Order::Greater);
                }
                assert(manifest_cmp(s[0].manifest, r.manifest) != Order::Greater);
                assert(false);
            }
        }
    } else {
        assert forall|i: int, j: int|
            0 <= i < j < s.skip(1).len() implies #[trigger] manifest_cmp(
            s.skip(1)[i].manifest,
            s.skip(1)[j].manifest,
        ) != Order::Greater && #[trigger] s.skip(1)[i].manifest != #[trigger] s.skip(
            1,
        )[j].manifest by {
            assert(s.skip(1)[i] == s[i + 1]);
            assert(s.skip(1)[j] == s[j + 1]);
        }
        lemma_group_insert_wf(s.skip(1), r);
        lemma_group_insert_elems(s.skip(1), r);
        let tail = group_insert(s.skip(1), r);
        assert forall|j: int| 1 <= j < t.len() implies manifest_cmp(t[0].manifest, t[j].manifest)
            != Order::Greater && t[0].manifest != t[j].manifest by {
            assert(t[j] == tail[j - 1]);
            if exists|i: int| 0 <= i < s.skip(1).len() && tail[j - 1] == s.skip(1)[i] {
                let i = choose|i: int| 0 <= i < s.skip(1).len() && tail[j - 1] == s.skip(1)[i];
                assert(s.skip(1)[i] == s[i + 1]);
                assert(manifest_cmp(s[0].manifest, s[i + 1].manifest) != Order::Greater);
                assert(s[0].manifest != s[i + 1].manifest);
            } else {
                assert(tail[j - 1] == r);
            }
        }
        assert forall|i: int, j: int| 0 <= i < j < t.len() implies #[trigger] manifest_cmp(
            t[i].manifest,
            t[j].manifest,
        ) != Order::Greater && #[trigger] t[i].manifest != #[trigger] t[j].manifest by {
            if i >= 1 {
                assert(t[i] == tail[i - 1]);
                assert(t[j] == tail[j - 1]);
            }
        }
    }
}

/// Law: inserting a root whose manifest is entirely identical to a member's
/// leaves the group unchanged, whatever directory the new root came from.
pub proof fn lemma_group_insert_duplicate(s: Seq<RootView>, r: RootView)
    requires
        group_wf(s),
        exists|i: int| 0 <= i < s.len() && #[trigger] s[i].manifest == r.manifest,
    ensures
        group_insert(s, r) == s,
    decreases s.len(),
{
    let i = choose|i: int| 0 <= i < s.len() && #[trigger] s[i].manifest == r.manifest;
    if s[0].manifest == r.manifest {
    } else {
        assert(i >= 1);
        if manifest_cmp(s[0].manifest, r.manifest) == Order::Greater {
            assert(manifest_cmp(s[0].manifest, s[i].manifest) != Order::Greater);
            assert(false);
        } else {
            assert(s.skip(1)[i - 1] == s[i]);
            assert forall|x: int, y: int|
                0 <= x < y < s.skip(1).len() implies #[trigger] manifest_cmp(
                s.skip(1)[x].manifest,
                s.skip(1)[y].manifest,
            ) != Order::Greater && #[trigger] s.skip(1)[x].manifest != #[trigger] s.skip(
                1,
            )[y].manifest by {
                assert(s.skip(1)[x] == s[x + 1]);
                assert(s.skip(1)[y] == s[y + 1]);
            }
            lemma_group_insert_duplicate(s.skip(1), r);
            assert(group_insert(s, r) =~= s);
        }
    }
}

/// Law: inserting a root no member matches keeps every old member and adds the
/// root at some position: distinct manifests are never merged.
pub proof fn lemma_group_insert_new(s: Seq<RootView>, r: RootView)
    requires
        forall|i: int| 0 <= i < s.len() ==> #[trigger] s[i].manifest != r.manifest,
    ensures
        exists|p: int| 0 <= p <= s.len() && group_insert(s, r) == s.insert(p, r),
    decreases s.len(),
{
    if s.len() == 0 {
        assert(group_insert(s, r) =~= s.insert(0, r));
    } else if manifest_cmp(s[0].manifest, r.manifest) == Order::Greater {
        assert(group_insert(s, r) =~= s.insert(0, r));
    } else {
        assert forall|i: int| 0 <= i < s.skip(1).len() implies #[trigger] s.skip(1)[i].manifest
            != r.manifest by {
            assert(s.skip(1)[i] == s[i + 1]);
        }
        lemma_group_insert_new(s.skip(1), r);
        let p = choose|p: int|
            0 <= p <= s.skip(1).len() && group_insert(s.skip(1), r) == s.skip(1).insert(p, r);
        assert(group_insert(s, r) =~= s.insert(p + 1, r)) by {
            assert forall|k: int|
                0 <= k < group_insert(s, r).len() implies group_insert(s, r)[k] == s.insert(
                p + 1,
                r,
            )[k] by {
                if k >= 1 {
                    assert(group_insert(s, r)[k] == s.skip(1).insert(p, r)[k - 1]);
                    if k - 1 < p {
                        assert(s.skip(1).insert(p, r)[k - 1] == s.skip(1)[k - 1]);
                        assert(s.skip(1)[k - 1] == s[k]);
                    } else if k - 1 > p {
                        assert(s.skip(1).insert(p, r)[k - 1] == s.skip(1)[k - 2]);
                        assert(s.skip(1)[k - 2] == s[k - 1]);
                    }
                }
            }
        }
    }
}

/// Law: within a well-formed group, two members sharing a name but differing
/// in version key stand in strictly increasing version order.
pub proof fn lemma_group_versions_ordered(s: Seq<RootView>, i: int, j: int)
    requires
        group_wf(s),
        0 <= i < j < s.len(),
        s[i].manifest.package.name == s[j].manifest.package.name,
        version_key(s[i].manifest.package.version) != version_key(s[j].manifest.package.version),
    ensures
        version_cmp(s[i].manifest.package.version, s[j].manifest.package.version) == Order::Less,
{
    lemma_manifest_cmp_eq(s[i].manifest, s[j].manifest);
    lemma_bytes_cmp_eq(s[i].manifest.package.name, s[j].manifest.package.name);
    assert(manifest_cmp(s[i].manifest, s[j].manifest) != Order::Greater);
}

/// The group of roots discovered under one declared package name.
pub struct RootGroup {
    pub members: Vec<Root>,
}

/// The images of a group's members.
pub open spec fn members_view(members: Seq<Root>) -> Seq<RootView> {
    members.map_values(|r: Root| r@)
}

impl View for RootGroup {
    type V = Seq<RootView>;

    open spec fn view(&self) -> Seq<RootView> {
        members_view(self.members@)
    }
}

impl RootGroup {
    /// A group with no members yet.
    pub fn new() -> (r: RootGroup)
        ensures
            r@ =~= Seq::<RootView>::empty(),
            group_wf(r@),
    {
        RootGroup { members: Vec::new() }
    }

    /// Inserts a discovered root, deduplicating by full manifest equality and
    /// keeping members sorted by the manifest ordering.
    pub fn insert(&mut self, root: Root)
        requires
            group_wf(old(self)@),
        ensures
            final(self)@ == group_insert(old(self)@, root@),
            group_wf(final(self)@),
    {
        proof {
            lemma_group_insert_wf(old(self)@, root@);
        }
        let ghost full = self@;
        let mut i: usize = 0;
        proof {
            assert(full.skip(0) =~= full);
            assert(full.take(0) + group_insert(full.skip(0), root@) =~= group_insert(
                full,
                root@,
            ));
        }
        while i < self.members.len()
            invariant
                self == old(self),
                full == self@,
                full.len() == self.members@.len(),
                i <= self.members.len(),
                group_insert(full, root@) == full.take(i as int) + group_insert(
                    full.skip(i as int),
                    root@,
                ),
                group_wf(group_insert(full, root@)),
            decreases self.members.len() - i,
        {
            proof {
                assert(full.skip(i as int)[0] == full[i as int]);
                assert(full[i as int] == self.members@[i as int]@);
            }
            if manifest_eq_exec(&self.members[i].manifest, &root.manifest) {
                proof {
                    assert(group_insert(full.skip(i as int), root@) == full.skip(i as int));
                    assert(full.take(i as int) + full.skip(i as int) =~= full);
                }
                return ;
            }
            match manifest_cmp_exec(&self.members[i].manifest, &root.manifest) {
                Order::Greater => {
                    self.members.insert(i, root);
                    proof {
                        assert(group_insert(full.skip(i as int), root@) == seq![root@] + full.skip(
                            i as int,
                        ));
                        assert(self@ =~= full.take(i as int) + (seq![root@] + full.skip(i as int)));
                    }
                    return ;
                },
                _ => {
                    proof {
                        assert(full.skip(i as int).skip(1) =~= full.skip(i + 1));
                        assert(full.take(i as int) + (seq![full[i as int]] + group_insert(
                            full.skip(i + 1),
                            root@,
                        )) =~= full.take(i + 1) + group_insert(full.skip(i + 1), root@));
                    }
                },
            }
            i = i + 1;
        }
        self.members.push(root);
        proof {
            assert(full.skip(i as int) =~= Seq::<RootView>::empty());
            assert(group_insert(full.skip(i as int), root@) =~= seq![root@]);
            assert(full.take(i as int) =~= full);
            assert(self@ =~= full + seq![root@]);
        }
    }
}

/// Copies a byte string.
pub fn clone_bytes(v: &Vec<u8>) -> (r: Vec<u8>)
    ensures
        r@ == v@,
{
    let mut r: Vec<u8> = Vec::new();
    let mut i: usize = 0;
    while i < v.len()
        invariant
            i <= v.len(),
            r@ == v@.take(i as int),
        decreases v.len() - i,
    {
        r.push(v[i]);
        proof {
            assert(v@.take(i as int).push(v@[i as int]) =~= v@.take(i + 1));
        }
        i = i + 1;
    }
    proof {
        assert(v@.take(i as int) =~= v@);
    }
    r
}

/// One scan-index entry: a declared package name and its group of roots.
pub struct GroupEntry {
    pub name: Vec<u8>,
    pub group: RootGroup,
}

/// Mathematical image of a `GroupEntry`.
#[verifier::ext_equal]
pub ghost struct GroupEntryView {
    pub name: Seq<u8>,
    pub members: Seq<RootView>,
}

impl View for GroupEntry {
    type V = GroupEntryView;

    open spec fn view(&self) -> GroupEntryView {
        GroupEntryView { name: self.name@, members: self.group@ }
    }
}

/// Well-formedness of a scan index: one entry per declared name, each group
/// well-formed, and every member grouped under exactly its declared name.
pub open spec fn index_wf(es: Seq<GroupEntryView>) -> bool {
    (forall|i: int, j: int|
        0 <= i < j < es.len() ==> #[trigger] es[i].name != #[trigger] es[j].name) && (forall|i: int|
        0 <= i < es.len() ==> group_wf(#[trigger] es[i].members)) && (forall|i: int, k: int|
        0 <= i < es.len() && 0 <= k < es[i].members.len()
            ==> #[trigger] es[i].members[k].manifest.package.name == es[i].name)
}

/// The index of one scan path: every distinct declared package name seen, in
/// first-seen order, each with its group of discovered roots.
pub struct ScanIndex {
    pub entries: Vec<GroupEntry>,
}

/// The images of the index entries.
pub open spec fn entries_view(es: Seq<GroupEntry>) -> Seq<GroupEntryView> {
    es.map_values(|e: GroupEntry| e@)
}

impl View for ScanIndex {
    type V = Seq<GroupEntryView>;

    open spec fn view(&self) -> Seq<GroupEntryView> {
        entries_view(self.entries@)
    }
}

impl ScanIndex {
    /// An index with no entries yet.
    pub fn new() -> (r: ScanIndex)
        ensures
            r@ =~= Seq::<GroupEntryView>::empty(),
            index_wf(r@),
    {
        ScanIndex { entries: Vec::new() }
    }

    /// Inserts a discovered root into the group keyed by its declared package
    /// name, opening a new entry at the end when the name is new.
    pub fn insert(&mut self, root: Root)
        requires
            index_wf(old(self)@),
        ensures
            index_wf(final(self)@),
            (forall|i: int|
                0 <= i < old(self)@.len() ==> #[trigger] old(self)@[i].name
                    != root@.manifest.package.name) ==> final(self)@ == old(self)@.push(
                GroupEntryView { name: root@.manifest.package.name, members: seq![root@] },
            ),
            forall|i: int|
                0 <= i < old(self)@.len() && #[trigger] old(self)@[i].name
                    == root@.manifest.package.name ==> final(self)@ == old(self)@.update(
                    i,
                    GroupEntryView {
                        name: old(self)@[i].name,
                        members: group_insert(old(self)@[i].members, root@),
                    },
                ),
    {
        let ghost old_es = self@;
        let mut k: usize = 0;
        while k < self.entries.len()
            invariant
                index_wf(old_es),
                self == old(self),
                old_es == self@,
                old_es.len() == self.entries@.len(),
                k <= self.entries.len(),
                forall|m: int|
                    0 <= m < k ==> #[trigger] old_es[m].name != root@.manifest.package.name,
            decreases self.entries.len() - k,
        {
            proof {
                assert(old_es[k as int] == self.entries@[k as int]@);
            }
            if bytes_eq(&self.entries[k].name, &root.manifest.package.name) {
                let ghost rootv = root@;
                let mut entry = self.entries.remove(k);
                proof {
                    assert(entry@ == old_es[k as int]);
                    assert(entry.group@ == old_es[k as int].members);
                    assert(group_wf(old_es[k as int].members));
                }
                entry.group.insert(root);
                proof {
                    lemma_group_insert_elems(old_es[k as int].members, rootv);
                }
                self.entries.insert(k, entry);
                proof {
                    assert(self@ =~= old_es.update(
                        k as int,
                        GroupEntryView {
                            name: old_es[k as int].name,
                            members: group_insert(old_es[k as int].members, rootv),
                        },
                    ));
                    let es = self@;
                    assert forall|i: int, kk: int|
                        0 <= i < es.len() && 0 <= kk < es[i].members.len()
                            implies #[trigger] es[i].members[kk].manifest.package.name
                            == es[i].name by {
                        if i == k {
                            if !(exists|m: int|
                                0 <= m < old_es[i].members.len() && es[i].members[kk]
                                    == old_es[i].members[m]) {
                                assert(es[i].members[kk] == rootv);
                            } else {
                                let m = choose|m: int|
                                    0 <= m < old_es[i].members.len() && es[i].members[kk]
                                        == old_es[i].members[m];
                                assert(old_es[i].members[m].manifest.package.name
                                    == old_es[i].name);
                            }
                        }
                    }
                }
                return ;
            }
            k = k + 1;
        }
        let name = clone_bytes(&root.manifest.package.name);
        let ghost rootv = root@;
        let mut group = RootGroup::new();
        group.insert(root);
        let entry = GroupEntry { name, group };
        self.entries.push(entry);
        proof {
            assert(self@ =~= old_es.push(
                GroupEntryView { name: rootv.manifest.package.name, members: seq![rootv] },
            ));
        }
    }
}

} // verus!
