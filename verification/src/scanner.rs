//! Walking a directory tree: which entries take part in deduplication, and
//! their grouping by size.

use std::collections::HashMap;
use vstd::prelude::*;
use vstd::string::*;

verus! {

broadcast use vstd::std_specs::hash::group_hash_axioms;

/// Suffix of the temp files the vault writes through; such files are
/// never scanned.
pub open spec fn temp_suffix() -> Seq<char> {
    ".imprint_tmp"@
}

/// Whether `s` ends with `suffix`.
pub open spec fn ends_with(s: Seq<char>, suffix: Seq<char>) -> bool {
    suffix.len() <= s.len() && s.subrange(s.len() - suffix.len(), s.len() as int) == suffix
}

/// Whether a file name is that of a vault temp file.
pub fn is_temp_name(name: &str) -> (temp: bool)
    ensures
        temp == ends_with(name@, temp_suffix()),
{
    let suffix = ".imprint_tmp";
    proof {
        reveal_strlit(".imprint_tmp");
    }
    let n = name.unicode_len();
    let m = suffix.unicode_len();
    if n < m {
        return false;
    }
    let mut i: usize = 0;
    while i < m
        invariant
            m == suffix@.len(),
            n == name@.len(),
            suffix@ == temp_suffix(),
            m <= n,
            i <= m,
            forall|j: int| 0 <= j < i ==> name@[n - m + j] == suffix@[j],
        decreases m - i,
    {
        if name.get_char(n - m + i) != suffix.get_char(i) {
            assert(name@.subrange(n - m, n as int)[i as int] != suffix@[i as int]);
            return false;
        }
        i += 1;
    }
    assert(name@.subrange(n - m, n as int) =~= suffix@);
    true
}

/// One directory entry as the walk reported it.
#[derive(Debug, Clone)]
pub struct WalkEntry {
    /// The entry's full path.
    pub path: String,
    /// Its file name.
    pub file_name: String,
    /// Whether it is a regular file.
    pub is_file: bool,
    /// Its size in bytes, or `None` when its metadata could not be read.
    pub size: Option<u64>,
}

/// What the walk produced at one step.
#[derive(Debug, Clone)]
pub enum WalkItem {
    /// An entry that could not be read.
    Unreadable,
    /// A readable entry.
    Entry(WalkEntry),
}

/// The path and size of an entry that takes part in deduplication: a
/// readable regular file, not a vault temp file, whose metadata could be
/// read.
pub open spec fn scanned(item: WalkItem) -> Option<(String, u64)> {
    match item {
        WalkItem::Unreadable => None,
        WalkItem::Entry(e) => if e.is_file && !ends_with(e.file_name@, temp_suffix())
            && e.size is Some {
            Some((e.path, e.size->0))
        } else {
            None
        },
    }
}

/// Every readable regular file whose metadata could be read and whose name
/// is not that of a vault temp file is scanned, with its path and size,
/// whatever its size; nothing else is.
pub proof fn law_every_readable_file_is_scanned(item: WalkItem)
    ensures
        (item matches WalkItem::Entry(e) && e.is_file && !ends_with(e.file_name@, ".imprint_tmp"@)
            && e.size is Some) ==> scanned(item) == Some((item->0.path, item->0.size->0)),
        scanned(item) is Some ==> (item matches WalkItem::Entry(e) && e.is_file && !ends_with(
            e.file_name@,
            ".imprint_tmp"@,
        ) && e.size is Some && scanned(item) == Some((e.path, e.size->0))),
{
}

/// The paths of the scanned entries among `items`, in walk order.
pub open spec fn scan_paths(items: Seq<WalkItem>) -> Seq<String>
    decreases items.len(),
{
    if items.len() == 0 {
        Seq::empty()
    } else {
        let prev = scan_paths(items.drop_last());
        match scanned(items.last()) {
            Some((path, _)) => prev.push(path),
            None => prev,
        }
    }
}

/// Size groups as plain sequences.
pub open spec fn groups_view(m: Map<u64, Vec<String>>) -> Map<u64, Seq<String>> {
    m.map_values(|v: Vec<String>| v@)
}

/// Adds `path` to the group of `size`.
pub open spec fn group_insert(
    groups: Map<u64, Seq<String>>,
    size: u64,
    path: String,
) -> Map<u64, Seq<String>> {
    let before = if groups.contains_key(size) {
        groups[size]
    } else {
        Seq::empty()
    };
    groups.insert(size, before.push(path))
}

/// The scanned entries among `items` grouped by size, each group in walk
/// order.
pub open spec fn size_groups(items: Seq<WalkItem>) -> Map<u64, Seq<String>>
    decreases items.len(),
{
    if items.len() == 0 {
        Map::empty()
    } else {
        let prev = size_groups(items.drop_last());
        match scanned(items.last()) {
            Some((path, size)) => group_insert(prev, size, path),
            None => prev,
        }
    }
}

/// The path and size of one walked entry, when it takes part in
/// deduplication.
pub fn scanned_entry(item: &WalkItem) -> (res: Option<(String, u64)>)
    ensures
        res == scanned(*item),
{
    match item {
        WalkItem::Unreadable => None,
        WalkItem::Entry(e) => {
            if !e.is_file {
                return None;
            }
            if is_temp_name(e.file_name.as_str()) {
                return None;
            }
            match e.size {
                Some(size) => Some((e.path.clone(), size)),
                None => None,
            }
        },
    }
}

/// The paths that a scan of the walk `items` streams on, in walk order.
pub fn stream_scan(items: &Vec<WalkItem>) -> (paths: Vec<String>)
    ensures
        paths@ == scan_paths(items@),
{
    let mut paths: Vec<String> = Vec::new();
    let mut i: usize = 0;
    while i < items.len()
        invariant
            i <= items.len(),
            paths@ == scan_paths(items@.take(i as int)),
        decreases items.len() - i,
    {
        assert(items@.take(i + 1).drop_last() =~= items@.take(i as int));
        match scanned_entry(&items[i]) {
            Some((path, _)) => paths.push(path),
            None => {},
        }
        i += 1;
    }
    assert(items@.take(items.len() as int) =~= items@);
    paths
}

/// Adds `path` to the group of `size` and returns how many files the group
/// held before.
pub fn push_to_group(groups: &mut HashMap<u64, Vec<String>>, size: u64, path: String) -> (before:
    usize)
    ensures
        groups_view(final(groups)@) == group_insert(groups_view(old(groups)@), size, path),
        before == (if old(groups)@.contains_key(size) {
            old(groups)@[size].len()
        } else {
            0
        }),
{
    let mut group = match groups.remove(&size) {
        Some(g) => g,
        None => Vec::new(),
    };
    let before = group.len();
    group.push(path);
    groups.insert(size, group);
    assert(groups_view(groups@) =~= group_insert(groups_view(old(groups)@), size, path));
    before
}

/// The scanned entries of the walk `items`, grouped by size.
pub fn group_by_size(items: &Vec<WalkItem>) -> (groups: HashMap<u64, Vec<String>>)
    ensures
        groups_view(groups@) == size_groups(items@),
{
    let mut groups: HashMap<u64, Vec<String>> = HashMap::new();
    let mut i: usize = 0;
    assert(groups_view(groups@) =~= Map::empty());
    while i < items.len()
        invariant
            i <= items.len(),
            groups_view(groups@) == size_groups(items@.take(i as int)),
        decreases items.len() - i,
    {
        assert(items@.take(i + 1).drop_last() =~= items@.take(i as int));
        match scanned_entry(&items[i]) {
            Some((path, size)) => {
                push_to_group(&mut groups, size, path);
            },
            None => {},
        }
        i += 1;
    }
    assert(items@.take(items.len() as int) =~= items@);
    groups
}

/// Whether `path` is in some size group.
pub open spec fn in_some_group(groups: Map<u64, Seq<String>>, path: String) -> bool {
    exists|size: u64| groups.contains_key(size) && #[trigger] groups[size].contains(path)
}

/// The streaming scan and the grouping by size take the same files: a path
/// is streamed exactly when it is in some size group.
pub proof fn law_stream_and_groups_agree(items: Seq<WalkItem>, path: String)
    ensures
        scan_paths(items).contains(path) <==> in_some_group(size_groups(items), path),
    decreases items.len(),
{
    if items.len() > 0 {
        let prev = items.drop_last();
        law_stream_and_groups_agree(prev, path);
        let sp = scan_paths(prev);
        let gp = size_groups(prev);
        match scanned(items.last()) {
            Some((p, size)) => {
                let g = size_groups(items);
                assert(scan_paths(items) == sp.push(p));
                assert(g == group_insert(gp, size, p));
                let before = if gp.contains_key(size) {
                    gp[size]
                } else {
                    Seq::empty()
                };
                assert(g[size] == before.push(p));
                if sp.push(p).contains(path) {
                    if path == p {
                        assert(g[size][before.len() as int] == p);
                        assert(g.contains_key(size) && g[size].contains(path));
                    } else {
                        let k = choose|k: int| 0 <= k < sp.push(p).len() && sp.push(p)[k] == path;
                        assert(sp[k] == path);
                        assert(sp.contains(path));
                        let t = choose|t: u64| gp.contains_key(t) && #[trigger] gp[t].contains(path);
                        if t == size {
                            let j = choose|j: int| 0 <= j < gp[t].len() && gp[t][j] == path;
                            assert(g[size][j] == path);
                            assert(g.contains_key(size) && g[size].contains(path));
                        } else {
                            assert(g[t] == gp[t]);
                            assert(g.contains_key(t) && g[t].contains(path));
                        }
                    }
                }
                if in_some_group(g, path) {
                    let t = choose|t: u64| g.contains_key(t) && #[trigger] g[t].contains(path);
                    if path == p {
                        assert(sp.push(p)[sp.len() as int] == path);
                    } else {
                        if t == size {
                            let j = choose|j: int| 0 <= j < g[t].len() && g[t][j] == path;
                            assert(j < before.len());
                            assert(before[j] == path);
                            assert(gp.contains_key(size) && gp[size].contains(path));
                        } else {
                            assert(gp.contains_key(t) && gp[t].contains(path));
                        }
                        assert(sp.contains(path));
                        let k = choose|k: int| 0 <= k < sp.len() && sp[k] == path;
                        assert(sp.push(p)[k] == path);
                    }
                }
            },
            None => {},
        }
    }
}

} // verus!
