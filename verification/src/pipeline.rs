//! The decisions of a scan: which files are read and hashed, what is
//! recorded for a hashed file, and how hashed files form duplicate groups.

use std::collections::HashMap;
use vstd::prelude::*;
use crate::scanner::{groups_view, group_insert, push_to_group};
use crate::state::DbOp;
use crate::types::FileMetadata;

verus! {

broadcast use vstd::std_specs::hash::group_hash_axioms;

/// The files of each size, in the order they were recorded.
pub open spec fn size_map(entries: Seq<(u64, String)>) -> Map<u64, Seq<String>>
    decreases entries.len(),
{
    if entries.len() == 0 {
        Map::empty()
    } else {
        group_insert(size_map(entries.drop_last()), entries.last().0, entries.last().1)
    }
}

/// What recording a file of size `size` at `path` sends to hashing, given
/// the files `groups` recorded before: nothing for the first file of a
/// size, the first file and this one for the second, this one afterwards.
pub open spec fn dispatch_step(groups: Map<u64, Seq<String>>, size: u64, path: String) -> Seq<
    String,
> {
    let before = if groups.contains_key(size) {
        groups[size]
    } else {
        Seq::empty()
    };
    if before.len() == 0 {
        Seq::empty()
    } else if before.len() == 1 {
        seq![before[0], path]
    } else {
        seq![path]
    }
}

/// Everything sent to hashing while recording `entries` in order.
pub open spec fn dispatch_of(entries: Seq<(u64, String)>) -> Seq<String>
    decreases entries.len(),
{
    if entries.len() == 0 {
        Seq::empty()
    } else {
        dispatch_of(entries.drop_last()) + dispatch_step(
            size_map(entries.drop_last()),
            entries.last().0,
            entries.last().1,
        )
    }
}

/// The scanned files grouped by size, deciding which of them need hashing:
/// a file is hashed only once another file of its size has been seen.
pub struct SizeIndex {
    groups: HashMap<u64, Vec<String>>,
    recorded: Ghost<Seq<(u64, String)>>,
    dispatched: Ghost<Seq<String>>,
}

impl SizeIndex {
    /// The files recorded so far, with their sizes, in order.
    pub closed spec fn recorded(&self) -> Seq<(u64, String)> {
        self.recorded@
    }

    /// The files sent to hashing so far, in order.
    pub closed spec fn dispatched(&self) -> Seq<String> {
        self.dispatched@
    }

    /// The index's invariant: its groups are those of the recorded files,
    /// and what it sent to hashing is what recording them sends.
    pub closed spec fn wf(&self) -> bool {
        &&& groups_view(self.groups@) == size_map(self.recorded@)
        &&& self.dispatched@ == dispatch_of(self.recorded@)
    }

    /// An index with nothing recorded.
    pub fn new() -> (index: Self)
        ensures
            index.wf(),
            index.recorded() == Seq::<(u64, String)>::empty(),
            index.dispatched() == Seq::<String>::empty(),
    {
        let index = SizeIndex {
            groups: HashMap::new(),
            recorded: Ghost(Seq::empty()),
            dispatched: Ghost(Seq::empty()),
        };
        assert(groups_view(index.groups@) =~= Map::empty());
        index
    }

    /// Records a scanned file and returns the files that are now to be
    /// hashed, in order.
    pub fn record(&mut self, size: u64, path: String) -> (to_hash: Vec<String>)
        requires
            old(self).wf(),
        ensures
            final(self).wf(),
            final(self).recorded() == old(self).recorded().push((size, path)),
            to_hash@ == dispatch_step(size_map(old(self).recorded()), size, path),
            final(self).dispatched() == old(self).dispatched() + to_hash@,
    {
        let ghost before_groups = size_map(self.recorded@);
        let first: Option<String> = match self.groups.get(&size) {
            Some(g) => if g.len() == 1 {
                Some(g[0].clone())
            } else {
                None
            },
            None => None,
        };
        let path_copy = path.clone();
        let before = push_to_group(&mut self.groups, size, path);
        proof {
            let old_rec = self.recorded@;
            self.recorded@ = old_rec.push((size, path_copy));
            assert(self.recorded@.drop_last() =~= old_rec);
        }
        let mut to_hash: Vec<String> = Vec::new();
        if before == 1 {
            match first {
                Some(f) => to_hash.push(f),
                None => {},
            }
            to_hash.push(path_copy);
        } else if before > 1 {
            to_hash.push(path_copy);
        }
        assert(to_hash@ =~= dispatch_step(before_groups, size, path_copy));
        proof {
            self.dispatched@ = self.dispatched@ + to_hash@;
        }
        to_hash
    }

    /// The files recorded so far, grouped by size.
    pub fn into_groups(self) -> (groups: HashMap<u64, Vec<String>>)
        requires
            self.wf(),
        ensures
            groups_view(groups@) == size_map(self.recorded()),
    {
        self.groups
    }
}

/// How many of the recorded files have size `size`.
pub open spec fn size_count(entries: Seq<(u64, String)>, size: u64) -> nat
    decreases entries.len(),
{
    if entries.len() == 0 {
        0
    } else {
        size_count(entries.drop_last(), size) + if entries.last().0 == size {
            1nat
        } else {
            0nat
        }
    }
}

/// No path is recorded twice (a directory walk visits each file once).
pub open spec fn distinct_paths(entries: Seq<(u64, String)>) -> bool {
    forall|i: int, j: int|
        0 <= i < j < entries.len() ==> #[trigger] entries[i].1 != #[trigger] entries[j].1
}

/// The recorded files of one size, as `size_map` holds them.
pub open spec fn group_of(entries: Seq<(u64, String)>, size: u64) -> Seq<String> {
    if size_map(entries).contains_key(size) {
        size_map(entries)[size]
    } else {
        Seq::empty()
    }
}

/// The group of a size holds exactly the recorded files of that size.
proof fn lemma_group_of(entries: Seq<(u64, String)>, size: u64)
    ensures
        group_of(entries, size).len() == size_count(entries, size),
        forall|x: String|
            group_of(entries, size).contains(x) <==> exists|j: int|
                0 <= j < entries.len() && #[trigger] entries[j] == (size, x),
    decreases entries.len(),
{
    if entries.len() > 0 {
        let prev = entries.drop_last();
        lemma_group_of(prev, size);
        let g = group_of(entries, size);
        let gp = group_of(prev, size);
        if entries.last().0 == size {
            assert(g == gp.push(entries.last().1));
        } else {
            assert(g == gp);
        }
        assert forall|x: String| g.contains(x) <==> exists|j: int|
            0 <= j < entries.len() && #[trigger] entries[j] == (size, x) by {
            if g.contains(x) {
                if gp.contains(x) {
                    let j = choose|j: int| 0 <= j < prev.len() && #[trigger] prev[j] == (size, x);
                    assert(entries[j] == (size, x));
                } else {
                    let k = choose|k: int| 0 <= k < g.len() && g[k] == x;
                    assert(k == gp.len());
                    assert(entries[entries.len() - 1] == (size, x));
                }
            }
            if exists|j: int| 0 <= j < entries.len() && #[trigger] entries[j] == (size, x) {
                let j = choose|j: int| 0 <= j < entries.len() && #[trigger] entries[j] == (size, x);
                if j < prev.len() {
                    assert(prev[j] == (size, x));
                    assert(gp.contains(x));
                    let k = choose|k: int| 0 <= k < gp.len() && gp[k] == x;
                    assert(g[k] == x);
                } else {
                    assert(g[g.len() - 1] == x);
                }
            }
        }
    }
}

/// An element of a concatenation is an element of one of its parts.
proof fn lemma_concat_contains(a: Seq<String>, b: Seq<String>, x: String)
    ensures
        (a + b).contains(x) <==> (a.contains(x) || b.contains(x)),
{
    if a.contains(x) {
        let k = choose|k: int| 0 <= k < a.len() && a[k] == x;
        assert((a + b)[k] == x);
    }
    if b.contains(x) {
        let k = choose|k: int| 0 <= k < b.len() && b[k] == x;
        assert((a + b)[a.len() + k] == x);
    }
    if (a + b).contains(x) {
        let k = choose|k: int| 0 <= k < (a + b).len() && (a + b)[k] == x;
        if k < a.len() {
            assert(a[k] == x);
        } else {
            assert(b[k - a.len()] == x);
        }
    }
}

/// Unique sizes are never read: over a whole scan, a file is sent to
/// hashing exactly when another scanned file has its size, and then exactly
/// once; nothing else is sent.
pub proof fn law_hashed_iff_size_shared(entries: Seq<(u64, String)>)
    requires
        distinct_paths(entries),
    ensures
        forall|i: int|
            0 <= i < entries.len() ==> (dispatch_of(entries).contains(#[trigger] entries[i].1)
                <==> size_count(entries, entries[i].0) >= 2),
        forall|x: String|
            dispatch_of(entries).contains(x) ==> exists|i: int|
                0 <= i < entries.len() && #[trigger] entries[i].1 == x,
        dispatch_of(entries).no_duplicates(),
    decreases entries.len(),
{
    if entries.len() > 0 {
        let prev = entries.drop_last();
        let n: int = prev.len() as int;
        let (size, path) = entries.last();
        assert(distinct_paths(prev)) by {
            assert forall|i: int, j: int| 0 <= i < j < prev.len() implies #[trigger] prev[i].1
                != #[trigger] prev[j].1 by {
                assert(entries[i].1 != entries[j].1);
            }
        }
        law_hashed_iff_size_shared(prev);
        lemma_group_of(prev, size);
        let d = dispatch_of(prev);
        let g = group_of(prev, size);
        let c = size_count(prev, size);
        let step = dispatch_step(size_map(prev), size, path);
        assert(dispatch_of(entries) == d + step);
        assert(entries[n] == (size, path));
        // the new path is not among the earlier ones
        assert forall|j: int| 0 <= j < n implies #[trigger] prev[j].1 != path by {
            assert(entries[j].1 != entries[n].1);
        }
        assert(!d.contains(path)) by {
            if d.contains(path) {
                let i = choose|i: int| 0 <= i < n && #[trigger] prev[i].1 == path;
            }
        }
        if c == 1 {
            assert(g.contains(g[0]));
            let j0 = choose|j: int| 0 <= j < n && #[trigger] prev[j] == (size, g[0]);
            assert(prev[j0].1 == g[0]);
            assert(size_count(prev, prev[j0].0) == 1);
            assert(!d.contains(g[0]));
            assert(g[0] != path);
            assert(step =~= seq![g[0], path]);
        } else if c >= 2 {
            assert(step =~= seq![path]);
        } else {
            assert(step =~= Seq::<String>::empty());
        }
        let dn = d + step;
        assert forall|i: int| 0 <= i < entries.len() implies (dn.contains(#[trigger] entries[i].1)
            <==> size_count(entries, entries[i].0) >= 2) by {
            if i < n {
                let (t, q) = prev[i];
                assert(entries[i] == prev[i]);
                lemma_concat_contains(d, step, q);
                assert(d.contains(prev[i].1) <==> size_count(prev, prev[i].0) >= 2);
                assert(size_count(entries, t) == c + 1 || t != size);
                if t != size {
                    assert(size_count(entries, t) == size_count(prev, t));
                    assert(!step.contains(q)) by {
                        if step.contains(q) {
                            if q != path {
                                assert(c == 1 && q == g[0]);
                                let j0 = choose|j: int| 0 <= j < n && #[trigger] prev[j] == (size, g[0]);
                                if j0 != i {
                                    if j0 < i {
                                        assert(prev[j0].1 != prev[i].1);
                                    } else {
                                        assert(prev[i].1 != prev[j0].1);
                                    }
                                }
                            }
                        }
                    }
                } else {
                    assert(g.contains(q)) by {
                        assert(prev[i] == (size, q));
                    }
                    if c == 1 {
                        let k = choose|k: int| 0 <= k < g.len() && g[k] == q;
                        assert(k == 0);
                        assert(dn[d.len() as int] == q);
                    } else {
                        assert(d.contains(q));
                        let k = choose|k: int| 0 <= k < d.len() && d[k] == q;
                        assert(dn[k] == q);
                    }
                }
            } else {
                assert(i == n);
                lemma_concat_contains(d, step, path);
                assert(size_count(entries, size) == c + 1);
                if c >= 1 {
                    assert(dn[dn.len() - 1] == path);
                }
            }
        }
        assert forall|x: String| dn.contains(x) implies exists|i: int|
            0 <= i < entries.len() && #[trigger] entries[i].1 == x by {
            let k = choose|k: int| 0 <= k < dn.len() && dn[k] == x;
            if k < d.len() {
                assert(d.contains(x));
                let i = choose|i: int| 0 <= i < n && #[trigger] prev[i].1 == x;
                assert(entries[i].1 == x);
            } else if x == path {
                assert(entries[n].1 == x);
            } else {
                assert(c == 1 && x == g[0]);
                let j0 = choose|j: int| 0 <= j < n && #[trigger] prev[j] == (size, g[0]);
                assert(entries[j0].1 == x);
            }
        }
        assert(dn.no_duplicates()) by {
            assert forall|a: int, b: int| 0 <= a < dn.len() && 0 <= b < dn.len() && a != b
                implies dn[a] != dn[b] by {
                if a < d.len() && b < d.len() {
                } else if a >= d.len() && b >= d.len() {
                } else if a < d.len() {
                    assert(d.contains(dn[a]));
                    assert(step.contains(dn[b]));
                } else {
                    assert(d.contains(dn[b]));
                    assert(step.contains(dn[a]));
                }
            }
        }
    }
}

/// Counting sizes over a concatenation adds the counts of the parts.
proof fn lemma_size_count_concat(a: Seq<(u64, String)>, b: Seq<(u64, String)>, size: u64)
    ensures
        size_count(a + b, size) == size_count(a, size) + size_count(b, size),
    decreases b.len(),
{
    if b.len() > 0 {
        lemma_size_count_concat(a, b.drop_last(), size);
        assert((a + b).drop_last() =~= a + b.drop_last());
        assert((a + b).last() == b.last());
    } else {
        assert(a + b =~= a);
    }
}

/// A recorded entry counts towards its size.
proof fn lemma_size_count_positive(entries: Seq<(u64, String)>, i: int)
    requires
        0 <= i < entries.len(),
    ensures
        size_count(entries, entries[i].0) >= 1,
{
    lemma_group_of(entries, entries[i].0);
    assert(exists|j: int| 0 <= j < entries.len() && #[trigger] entries[j] == (entries[i].0, entries[i].1));
    assert(group_of(entries, entries[i].0).contains(entries[i].1));
}

/// Scan stability: a file whose size no other file has is never hashed, and
/// adding it anywhere in the scan leaves the set of hashed files as it was.
pub proof fn law_unique_size_file_changes_no_hashing(
    entries: Seq<(u64, String)>,
    j: int,
    size: u64,
    path: String,
)
    requires
        0 <= j <= entries.len(),
        size_count(entries, size) == 0,
        distinct_paths(entries.take(j) + seq![(size, path)] + entries.skip(j)),
    ensures
        ({
            let more = entries.take(j) + seq![(size, path)] + entries.skip(j);
            &&& !dispatch_of(more).contains(path)
            &&& forall|x: String| #[trigger] dispatch_of(more).contains(x) <==> dispatch_of(
                entries,
            ).contains(x)
        }),
{
    let more = entries.take(j) + seq![(size, path)] + entries.skip(j);
    let n = entries.len() as int;
    assert(entries =~= entries.take(j) + entries.skip(j));
    // where each earlier entry sits in the longer scan
    assert forall|i: int| 0 <= i < n implies #[trigger] entries[i] == more[if i < j {
        i
    } else {
        i + 1
    }] by {}
    assert(more[j] == (size, path));
    assert(distinct_paths(entries)) by {
        assert forall|a: int, b: int| 0 <= a < b < n implies #[trigger] entries[a].1
            != #[trigger] entries[b].1 by {
            let a2 = if a < j { a } else { a + 1 };
            let b2 = if b < j { b } else { b + 1 };
            assert(entries[a] == more[a2]);
            assert(entries[b] == more[b2]);
        }
    }
    law_hashed_iff_size_shared(entries);
    law_hashed_iff_size_shared(more);
    // counts: the new entry adds one to its own size only
    assert forall|t: u64| #[trigger] size_count(more, t) == size_count(entries, t) + if t == size {
        1nat
    } else {
        0nat
    } by {
        lemma_size_count_concat(entries.take(j) + seq![(size, path)], entries.skip(j), t);
        lemma_size_count_concat(entries.take(j), seq![(size, path)], t);
        lemma_size_count_concat(entries.take(j), entries.skip(j), t);
        let single = seq![(size, path)];
        assert(single.drop_last() =~= Seq::<(u64, String)>::empty());
        assert(size_count(Seq::<(u64, String)>::empty(), t) == 0);
        assert(size_count(single, t) == if t == size {
            1nat
        } else {
            0nat
        });
        assert(entries.take(j) + entries.skip(j) == entries);
    }
    assert(size_count(more, size) == 1);
    assert(!dispatch_of(more).contains(path)) by {
        assert(more[j].1 == path);
    }
    assert forall|x: String| #[trigger] dispatch_of(more).contains(x) <==> dispatch_of(
        entries,
    ).contains(x) by {
        if dispatch_of(more).contains(x) {
            let i = choose|i: int| 0 <= i < more.len() && #[trigger] more[i].1 == x;
            assert(size_count(more, more[i].0) >= 2);
            if i == j {
                assert(size_count(more, size) == 1);
            } else {
                let i1 = if i < j { i } else { i - 1 };
                assert(entries[i1] == more[i]);
                if entries[i1].0 == size {
                    lemma_size_count_positive(entries, i1);
                }
                assert(size_count(entries, entries[i1].0) >= 2);
                assert(dispatch_of(entries).contains(entries[i1].1));
            }
        }
        if dispatch_of(entries).contains(x) {
            let i = choose|i: int| 0 <= i < entries.len() && #[trigger] entries[i].1 == x;
            assert(size_count(entries, entries[i].0) >= 2);
            let i2 = if i < j { i } else { i + 1 };
            assert(more[i2] == entries[i]);
            assert(size_count(more, more[i2].0) >= 2);
            assert(dispatch_of(more).contains(more[i2].1));
        }
    }
}

/// Whether a scan records what it finds in the state database: only when
/// it prepares a deduplication that changes files. A read-only scan and a
/// dry run leave the database as it was.
pub fn records_state(scan_only: bool, dry_run: bool) -> (record: bool)
    ensures
        record == (!scan_only && !dry_run),
{
    !scan_only && !dry_run
}

/// Whether a hashing worker skips a file: only when the database says its
/// inode is already a hard link into the vault (`None`: the database could not be read).
pub fn skip_vaulted(vaulted: Option<bool>) -> (skip: bool)
    ensures
        skip == (vaulted == Some(true)),
{
    match vaulted {
        Some(v) => v,
        None => false,
    }
}

/// What the database records for a hashed file; a modification time that
/// could not be read is recorded as zero.
pub fn index_file(path: String, size: u64, modified: Option<u64>, hash: crate::types::Hash) -> (op:
    DbOp)
    ensures
        op == DbOp::UpsertFile(
            path,
            FileMetadata {
                size,
                modified: match modified {
                    Some(m) => m,
                    None => 0,
                },
                hash,
            },
        ),
{
    let modified = match modified {
        Some(m) => m,
        None => 0,
    };
    DbOp::UpsertFile(path, FileMetadata { size, modified, hash })
}

/// Files found to share one content hash.
#[derive(Debug, Clone, PartialEq, Eq)]
pub struct HashGroup {
    pub hash: crate::types::Hash,
    pub paths: Vec<String>,
}

/// A group as plain values.
pub open spec fn group_view(g: HashGroup) -> (Seq<u8>, Seq<String>) {
    (g.hash@, g.paths@)
}

/// Whether a hash is among the groups' hashes.
pub open spec fn has_hash(groups: Seq<(Seq<u8>, Seq<String>)>, hash: Seq<u8>) -> bool {
    exists|i: int| 0 <= i < groups.len() && #[trigger] groups[i].0 == hash
}

/// The groups after adding a file with content hash `hash`: it joins the
/// group of its hash, or starts a new group at the end.
pub open spec fn add_to_hash_group(
    groups: Seq<(Seq<u8>, Seq<String>)>,
    hash: Seq<u8>,
    path: String,
) -> Seq<(Seq<u8>, Seq<String>)> {
    if has_hash(groups, hash) {
        let i = choose|i: int| 0 <= i < groups.len() && #[trigger] groups[i].0 == hash;
        groups.update(i, (hash, groups[i].1.push(path)))
    } else {
        groups.push((hash, seq![path]))
    }
}

/// No two groups share a hash.
pub open spec fn distinct_hashes(groups: Seq<(Seq<u8>, Seq<String>)>) -> bool {
    forall|i: int, j: int|
        0 <= i < groups.len() && 0 <= j < groups.len() && i != j ==> #[trigger] groups[i].0
            != #[trigger] groups[j].0
}

/// Whether two hashes are equal.
pub fn same_hash(a: &crate::types::Hash, b: &crate::types::Hash) -> (same: bool)
    ensures
        same == (a@ == b@),
{
    let mut i: usize = 0;
    while i < 32
        invariant
            i <= 32,
            a@.len() == 32,
            b@.len() == 32,
            forall|j: int| 0 <= j < i ==> a@[j] == b@[j],
        decreases 32 - i,
    {
        if a[i] != b[i] {
            return false;
        }
        i += 1;
    }
    assert(a@ =~= b@);
    true
}

/// Hashed files grouped by content hash, groups in order of first
/// appearance and files in order of arrival.
pub struct HashGroups {
    groups: Vec<HashGroup>,
}

impl HashGroups {
    /// The groups as plain values.
    pub closed spec fn view_groups(&self) -> Seq<(Seq<u8>, Seq<String>)> {
        self.groups@.map_values(|g: HashGroup| group_view(g))
    }

    /// The invariant: no two groups share a hash.
    pub closed spec fn wf(&self) -> bool {
        distinct_hashes(self.view_groups())
    }

    /// No groups yet.
    pub fn new() -> (g: Self)
        ensures
            g.wf(),
            g.view_groups() == Seq::<(Seq<u8>, Seq<String>)>::empty(),
    {
        let g = HashGroups { groups: Vec::new() };
        assert(g.view_groups() =~= Seq::<(Seq<u8>, Seq<String>)>::empty());
        g
    }

    /// Adds a hashed file to the group of its hash.
    pub fn add(&mut self, hash: crate::types::Hash, path: String)
        requires
            old(self).wf(),
        ensures
            final(self).wf(),
            final(self).view_groups() == add_to_hash_group(old(self).view_groups(), hash@, path),
    {
        let ghost old_view = old(self).view_groups();
        let n = self.groups.len();
        let mut i: usize = 0;
        while i < n
            invariant
                n == self.groups@.len(),
                i <= n,
                self.view_groups() == old_view,
                old(self).view_groups() == old_view,
                distinct_hashes(old_view),
                forall|j: int| 0 <= j < i ==> self.groups@[j].hash@ != hash@,
            decreases n - i,
        {
            if same_hash(&self.groups[i].hash, &hash) {
                assert(old_view[i as int].0 == hash@);
                assert(has_hash(old_view, hash@));
                let ghost k = choose|k: int| 0 <= k < old_view.len() && #[trigger] old_view[k].0 == hash@;
                assert(k == i);
                self.groups[i].paths.push(path);
                assert(self.view_groups() =~= old_view.update(i as int, (hash@, old_view[i as int].1.push(path))));
                assert(add_to_hash_group(old_view, hash@, path) == old_view.update(k, (hash@, old_view[k].1.push(path))));
                return;
            }
            i += 1;
        }
        assert(!has_hash(old_view, hash@)) by {
            if has_hash(old_view, hash@) {
                let k = choose|k: int| 0 <= k < old_view.len() && #[trigger] old_view[k].0 == hash@;
                assert(self.groups@[k].hash@ == hash@);
            }
        }
        let mut paths: Vec<String> = Vec::new();
        paths.push(path);
        self.groups.push(HashGroup { hash, paths });
        assert(self.view_groups() =~= old_view.push((hash@, seq![path])));
    }

    /// The groups.
    pub fn into_groups(self) -> (groups: Vec<HashGroup>)
        requires
            self.wf(),
        ensures
            groups@.map_values(|g: HashGroup| group_view(g)) == self.view_groups(),
            distinct_hashes(groups@.map_values(|g: HashGroup| group_view(g))),
    {
        self.groups
    }
}

/// The reference counts a scan records: for each group of two or more
/// files, its size, in group order.
pub open spec fn refcount_ops_spec(groups: Seq<HashGroup>) -> Seq<DbOp>
    decreases groups.len(),
{
    if groups.len() == 0 {
        Seq::empty()
    } else {
        let prev = refcount_ops_spec(groups.drop_last());
        let g = groups.last();
        if g.paths@.len() > 1 {
            prev.push(DbOp::SetCasRefcount(g.hash, g.paths@.len() as u64))
        } else {
            prev
        }
    }
}

/// The reference count operations a scan writes for its groups.
pub fn refcount_ops(groups: &Vec<HashGroup>) -> (ops: Vec<DbOp>)
    ensures
        ops@ == refcount_ops_spec(groups@),
{
    let mut ops: Vec<DbOp> = Vec::new();
    let mut i: usize = 0;
    while i < groups.len()
        invariant
            i <= groups.len(),
            ops@ == refcount_ops_spec(groups@.take(i as int)),
        decreases groups.len() - i,
    {
        assert(groups@.take(i + 1).drop_last() =~= groups@.take(i as int));
        let n = groups[i].paths.len();
        if n > 1 {
            ops.push(DbOp::SetCasRefcount(groups[i].hash, n as u64));
        }
        i += 1;
    }
    assert(groups@.take(groups.len() as int) =~= groups@);
    ops
}

/// How many groups hold two or more files.
pub open spec fn duplicate_group_count(groups: Seq<HashGroup>) -> nat
    decreases groups.len(),
{
    if groups.len() == 0 {
        0
    } else {
        duplicate_group_count(groups.drop_last()) + if groups.last().paths@.len() > 1 {
            1nat
        } else {
            0nat
        }
    }
}

/// The number of duplicate groups that a run's summary reports.
pub fn count_duplicate_groups(groups: &Vec<HashGroup>) -> (count: usize)
    ensures
        count == duplicate_group_count(groups@),
{
    let mut count: usize = 0;
    let mut i: usize = 0;
    while i < groups.len()
        invariant
            i <= groups.len(),
            count == duplicate_group_count(groups@.take(i as int)),
            count <= i,
        decreases groups.len() - i,
    {
        assert(groups@.take(i + 1).drop_last() =~= groups@.take(i as int));
        if groups[i].paths.len() > 1 {
            count += 1;
        }
        i += 1;
    }
    assert(groups@.take(groups.len() as int) =~= groups@);
    count
}

/// The groups of two or more files, in group order.
pub open spec fn duplicate_groups(groups: Seq<HashGroup>) -> Seq<HashGroup> {
    groups.filter(|g: HashGroup| g.paths@.len() > 1)
}

/// The reference count operation of each group: its hash and file count.
pub open spec fn refcounts_of(groups: Seq<HashGroup>) -> Seq<DbOp> {
    groups.map_values(|g: HashGroup| DbOp::SetCasRefcount(g.hash, g.paths@.len() as u64))
}

/// A scan records one reference count per group of two or more files, in
/// group order, and nothing else: every such group gets its count, the
/// number of its files, and every operation is the count of such a group.
pub proof fn law_refcount_ops_one_per_duplicate_group(groups: Seq<HashGroup>)
    ensures
        refcount_ops_spec(groups) == refcounts_of(duplicate_groups(groups)),
        forall|i: int|
            0 <= i < groups.len() && #[trigger] groups[i].paths@.len() > 1
                ==> refcount_ops_spec(groups).contains(
                DbOp::SetCasRefcount(groups[i].hash, groups[i].paths@.len() as u64),
            ),
        forall|k: int|
            0 <= k < refcount_ops_spec(groups).len() ==> exists|i: int|
                0 <= i < groups.len() && groups[i].paths@.len() > 1 && #[trigger] refcount_ops_spec(
                    groups,
                )[k] == DbOp::SetCasRefcount(groups[i].hash, groups[i].paths@.len() as u64),
    decreases groups.len(),
{
    reveal(Seq::filter);
    if groups.len() > 0 {
        let prev = groups.drop_last();
        let g = groups.last();
        law_refcount_ops_one_per_duplicate_group(prev);
        let ops_prev = refcount_ops_spec(prev);
        let ops = refcount_ops_spec(groups);
        let op = DbOp::SetCasRefcount(g.hash, g.paths@.len() as u64);
        if g.paths@.len() > 1 {
            assert(duplicate_groups(groups) == duplicate_groups(prev).push(g));
            assert(refcounts_of(duplicate_groups(prev).push(g)) =~= refcounts_of(
                duplicate_groups(prev),
            ).push(op));
            assert(ops == ops_prev.push(op));
        } else {
            assert(duplicate_groups(groups) == duplicate_groups(prev));
            assert(ops == ops_prev);
        }
        assert forall|i: int|
            0 <= i < groups.len() && #[trigger] groups[i].paths@.len() > 1 implies ops.contains(
            DbOp::SetCasRefcount(groups[i].hash, groups[i].paths@.len() as u64),
        ) by {
            if i < groups.len() - 1 {
                assert(prev[i] == groups[i]);
                assert(prev[i].paths@.len() > 1);
                let e = DbOp::SetCasRefcount(groups[i].hash, groups[i].paths@.len() as u64);
                assert(ops_prev.contains(e));
                let k = choose|k: int| 0 <= k < ops_prev.len() && ops_prev[k] == e;
                assert(ops[k] == e);
            } else {
                assert(ops[ops.len() - 1] == op);
            }
        }
        assert forall|k: int| 0 <= k < ops.len() implies exists|i: int|
            0 <= i < groups.len() && groups[i].paths@.len() > 1 && #[trigger] ops[k]
                == DbOp::SetCasRefcount(groups[i].hash, groups[i].paths@.len() as u64) by {
            if k < ops_prev.len() {
                assert(ops[k] == ops_prev[k]);
                let i = choose|i: int|
                    0 <= i < prev.len() && prev[i].paths@.len() > 1 && #[trigger] ops_prev[k]
                        == DbOp::SetCasRefcount(prev[i].hash, prev[i].paths@.len() as u64);
                assert(groups[i] == prev[i]);
            } else {
                assert(ops[k] == op);
                assert(groups[groups.len() - 1] == g);
            }
        }
    } else {
        assert(duplicate_groups(groups) =~= Seq::<HashGroup>::empty());
        assert(refcounts_of(duplicate_groups(groups)) =~= Seq::<DbOp>::empty());
    }
}

/// The summary counts groups, not files: the count is the number of groups
/// of two or more files, never more than the number of groups, and adding a
/// group adds one exactly when it holds two or more files.
pub proof fn law_duplicate_group_count_counts_groups(groups: Seq<HashGroup>, g: HashGroup)
    ensures
        duplicate_group_count(groups) == duplicate_groups(groups).len(),
        duplicate_group_count(groups) <= groups.len(),
        duplicate_group_count(groups.push(g)) == duplicate_group_count(groups) + if g.paths@.len()
            > 1 {
            1int
        } else {
            0int
        },
        refcount_ops_spec(groups).len() == duplicate_group_count(groups),
    decreases groups.len(),
{
    reveal(Seq::filter);
    assert(groups.push(g).drop_last() =~= groups);
    law_refcount_ops_one_per_duplicate_group(groups);
    if groups.len() > 0 {
        let prev = groups.drop_last();
        law_duplicate_group_count_counts_groups(prev, groups.last());
        if groups.last().paths@.len() > 1 {
            assert(duplicate_groups(groups) == duplicate_groups(prev).push(groups.last()));
        } else {
            assert(duplicate_groups(groups) == duplicate_groups(prev));
        }
    } else {
        assert(duplicate_groups(groups) =~= Seq::<HashGroup>::empty());
    }
}

} // verus!
