//! A model of the directory tree that the vault protocols work on: the set
//! of paths that exist, what each filesystem operation the protocols ask
//! for changes in it, and what each of their checks answers.

use vstd::prelude::*;
use crate::paths::join_path;
use crate::types::{hex_digit, hex_lower};
use crate::vault::{
    prune_next, shard_dir_spec, shard_path_spec, temp_path_spec, vault_next, PruneStage,
    VaultStage,
};

verus! {

/// Path `p` lies strictly below directory `d`: `d` followed by `/` starts `p`.
pub open spec fn below(d: Seq<char>, p: Seq<char>) -> bool {
    &&& d.len() < p.len()
    &&& p.subrange(0, d.len() as int) == d
    &&& p[d.len() as int] == '/'
}

/// The directories above path `p`.
pub open spec fn ancestors(p: Seq<char>) -> Set<Seq<char>> {
    Set::new(|q: Seq<char>| below(q, p))
}

/// Whether directory `d` holds no entry in tree `t`.
pub open spec fn dir_is_empty(t: Set<Seq<char>>, d: Seq<char>) -> bool {
    forall|p: Seq<char>| #[trigger] t.contains(p) ==> !below(d, p)
}

/// The tree after the vault operation at `stage` answered `ok`: creating
/// the shard directory creates it with its missing parents, a rename moves
/// a path, a copy adds one, a removal takes one away; checks, the open and
/// the flush change nothing, and neither does a failed operation.
pub open spec fn vault_effect(
    stage: VaultStage,
    ok: bool,
    t: Set<Seq<char>>,
    source: Seq<char>,
    temp: Seq<char>,
    dest: Seq<char>,
    parent: Seq<char>,
) -> Set<Seq<char>> {
    if !ok {
        t
    } else {
        match stage {
            VaultStage::CreateParentDir => t.union(ancestors(parent)).insert(parent),
            VaultStage::RemoveStaleTemp => t.remove(temp),
            VaultStage::RenameSourceToTemp => t.remove(source).insert(temp),
            VaultStage::CopySourceToTemp => t.insert(temp),
            VaultStage::RenameTempToDest => t.remove(temp).insert(dest),
            VaultStage::RemoveSource => t.remove(source),
            VaultStage::RestoreSourceFromTemp => t.remove(temp).insert(source),
            _ => t,
        }
    }
}

/// The answer of the vault operation at `stage` on tree `t` when every
/// operation that can fail succeeds, but for the rename of the source,
/// which answers `rename_ok` (it fails across filesystems): a check tells
/// whether its file exists.
pub open spec fn vault_answer(
    stage: VaultStage,
    t: Set<Seq<char>>,
    temp: Seq<char>,
    dest: Seq<char>,
    rename_ok: bool,
) -> bool {
    match stage {
        VaultStage::CheckDestExists => t.contains(dest),
        VaultStage::CheckTempExists => t.contains(temp),
        VaultStage::RenameSourceToTemp => rename_ok,
        _ => true,
    }
}

/// The final stage and tree of at most `fuel` vault operations from
/// `stage`, answered as `vault_answer` says.
pub open spec fn vault_run(
    stage: VaultStage,
    used_copy: bool,
    t: Set<Seq<char>>,
    source: Seq<char>,
    temp: Seq<char>,
    dest: Seq<char>,
    parent: Seq<char>,
    rename_ok: bool,
    fuel: nat,
) -> (VaultStage, Set<Seq<char>>)
    decreases fuel,
{
    if fuel == 0 || stage is Vaulted || stage is Failed {
        (stage, t)
    } else {
        let ok = vault_answer(stage, t, temp, dest, rename_ok);
        vault_run(
            vault_next(stage, used_copy, ok),
            used_copy || (stage == VaultStage::RenameSourceToTemp && !ok),
            vault_effect(stage, ok, t, source, temp, dest, parent),
            source,
            temp,
            dest,
            parent,
            rename_ok,
            (fuel - 1) as nat,
        )
    }
}

/// The tree after the prune operation at `stage`, which succeeded.
pub open spec fn prune_effect(
    stage: PruneStage,
    t: Set<Seq<char>>,
    dest: Seq<char>,
    shard: Seq<char>,
    prefix: Seq<char>,
) -> Set<Seq<char>> {
    match stage {
        PruneStage::RemoveVaultFile => t.remove(dest),
        PruneStage::RemoveShardDir => t.remove(shard),
        PruneStage::RemovePrefixDir => t.remove(prefix),
        _ => t,
    }
}

/// The answer of the prune operation at `stage` on tree `t`: a check tells
/// whether the vault file exists, or whether a directory is empty; a
/// removal succeeds.
pub open spec fn prune_answer(
    stage: PruneStage,
    t: Set<Seq<char>>,
    dest: Seq<char>,
    shard: Seq<char>,
    prefix: Seq<char>,
) -> bool {
    match stage {
        PruneStage::CheckVaultFile => t.contains(dest),
        PruneStage::CheckShardDirEmpty => dir_is_empty(t, shard),
        PruneStage::CheckPrefixDirEmpty => dir_is_empty(t, prefix),
        _ => true,
    }
}

/// The final stage and tree of at most `fuel` prune operations from `stage`.
pub open spec fn prune_run(
    stage: PruneStage,
    t: Set<Seq<char>>,
    dest: Seq<char>,
    shard: Seq<char>,
    prefix: Seq<char>,
    fuel: nat,
) -> (PruneStage, Set<Seq<char>>)
    decreases fuel,
{
    if fuel == 0 || stage is Pruned || stage is Failed {
        (stage, t)
    } else {
        let ok = prune_answer(stage, t, dest, shard, prefix);
        prune_run(
            prune_next(stage, ok),
            if ok {
                prune_effect(stage, t, dest, shard, prefix)
            } else {
                t
            },
            dest,
            shard,
            prefix,
            (fuel - 1) as nat,
        )
    }
}

/// A hex digit is never `/`.
proof fn lemma_hex_digit_not_slash(n: u8)
    requires
        n < 16,
    ensures
        hex_digit(n) != '/',
{
    assert((hex_digit(n) as u32) == (if n < 10 { 48 + n } else { 87 + n }));
}

/// No character of a hex rendering is `/`.
proof fn lemma_hex_has_no_slash(bytes: Seq<u8>, i: int)
    requires
        0 <= i < hex_lower(bytes).len(),
    ensures
        hex_lower(bytes)[i] != '/',
{
    lemma_hex_digit_not_slash(bytes[i / 2] / 16);
    lemma_hex_digit_not_slash(bytes[i / 2] % 16);
}

/// What lies below a path lies below each directory above it.
proof fn lemma_below_trans(a: Seq<char>, b: Seq<char>, c: Seq<char>)
    requires
        below(a, b),
        b.len() <= c.len(),
        c.subrange(0, b.len() as int) == b,
    ensures
        below(a, c),
{
    assert(c.subrange(0, a.len() as int) =~= b.subrange(0, a.len() as int));
    assert(c[a.len() as int] == b[a.len() as int]);
}

/// Joining a component onto a path that does not end in `/` puts the
/// joined path right below it.
proof fn lemma_join_below(base: Seq<char>, component: Seq<char>)
    requires
        base.len() > 0,
        base.last() != '/',
    ensures
        join_path(base, component) == base + seq!['/'] + component,
        below(base, join_path(base, component)),
{
    let p = join_path(base, component);
    assert(p.subrange(0, base.len() as int) =~= base);
}

/// The layout of a hash's place in the vault under a root that does not
/// end in `/`: `<root>/<hex[0..2]>/<hex[2..4]>/<hex>`, each directory right
/// below the one before, and the directories above the shard directory are
/// those above the root, the root and the prefix directory.
proof fn lemma_vault_layout(root: Seq<char>, hash: Seq<u8>)
    requires
        hash.len() == 32,
        root.len() > 0,
        root.last() != '/',
    ensures
        ({
            let hex = hex_lower(hash);
            let prefix = join_path(root, hex.subrange(0, 2));
            let shard = shard_dir_spec(root, hash);
            let dest = shard_path_spec(root, hash);
            &&& shard == join_path(prefix, hex.subrange(2, 4))
            &&& below(root, prefix)
            &&& below(prefix, shard)
            &&& below(shard, dest)
            &&& prefix.len() == root.len() + 3
            &&& shard.len() == root.len() + 6
            &&& forall|q: Seq<char>|
                below(q, shard) ==> (below(q, root) || q == root || q == prefix)
        }),
{
    let hex = hex_lower(hash);
    let x1 = hex.subrange(0, 2);
    let x2 = hex.subrange(2, 4);
    lemma_hex_has_no_slash(hash, 1);
    lemma_hex_has_no_slash(hash, 3);
    lemma_hex_has_no_slash(hash, 63);
    lemma_join_below(root, x1);
    let prefix = join_path(root, x1);
    assert(prefix.last() == hex[1]);
    lemma_join_below(prefix, x2);
    let shard = join_path(prefix, x2);
    assert(shard.last() == hex[3]);
    lemma_join_below(shard, hex);
    let n = root.len() as int;
    assert forall|q: Seq<char>| below(q, shard) implies (below(q, root) || q == root || q
        == prefix) by {
        let k = q.len() as int;
        assert(q == shard.subrange(0, k));
        if k < n {
            assert(shard[k] == root[k]);
            assert(root.subrange(0, k) =~= shard.subrange(0, k));
        } else if k == n {
            assert(q =~= root);
        } else if k == n + 1 || k == n + 2 {
            assert(shard[k] == hex[k - n - 1]);
            lemma_hex_has_no_slash(hash, k - n - 1);
        } else if k == n + 3 {
            assert(q =~= prefix);
        } else {
            assert(k == n + 4 || k == n + 5);
            assert(shard[k] == hex[k - n - 2]);
            lemma_hex_has_no_slash(hash, k - n - 2);
        }
    }
}

/// Vaulting a file and then pruning its hash gives the vault back as it
/// was. When the vault root exists, the hash's prefix directory does not,
/// and every operation succeeds but perhaps the rename of the source (the
/// source is then copied), vaulting ends with the content at the vault
/// file; pruning that hash then ends normally, and the tree is the one
/// before vaulting without the source file.
pub proof fn law_vault_then_prune_restores_tree(
    root: Seq<char>,
    hash: Seq<u8>,
    source: Seq<char>,
    t: Set<Seq<char>>,
    rename_ok: bool,
)
    requires
        hash.len() == 32,
        root.len() > 0,
        root.last() != '/',
        t.contains(root),
        forall|q: Seq<char>| below(q, root) ==> t.contains(q),
        t.contains(source),
        !t.contains(join_path(root, hex_lower(hash).subrange(0, 2))),
        dir_is_empty(t, join_path(root, hex_lower(hash).subrange(0, 2))),
    ensures
        ({
            let dest = shard_path_spec(root, hash);
            let shard = shard_dir_spec(root, hash);
            let prefix = join_path(root, hex_lower(hash).subrange(0, 2));
            let vaulted = vault_run(
                VaultStage::CheckDestExists,
                false,
                t,
                source,
                temp_path_spec(dest),
                dest,
                shard,
                rename_ok,
                9,
            );
            let pruned = prune_run(PruneStage::CheckVaultFile, vaulted.1, dest, shard, prefix, 6);
            &&& vaulted.0 == VaultStage::Vaulted
            &&& vaulted.1.contains(dest)
            &&& pruned.0 == PruneStage::Pruned
            &&& pruned.1 == t.remove(source)
        }),
{
    let hex = hex_lower(hash);
    let dest = shard_path_spec(root, hash);
    let shard = shard_dir_spec(root, hash);
    let prefix = join_path(root, hex.subrange(0, 2));
    let temp = temp_path_spec(dest);
    lemma_vault_layout(root, hash);
    assert(temp.subrange(0, dest.len() as int) =~= dest);
    lemma_below_trans(prefix, shard, dest);
    lemma_below_trans(prefix, dest, temp);
    assert(dest.len() > shard.len());
    // nothing of the hash's place is in the tree yet
    assert(!t.contains(shard));
    assert(!t.contains(dest));
    assert(!t.contains(temp));
    assert(source != dest && source != temp && source != shard && source != prefix);
    let ta = t.union(ancestors(shard)).insert(shard);
    assert(ta =~= t.insert(prefix).insert(shard));
    let t3 = ta.remove(source).remove(temp).insert(dest);
    reveal_with_fuel(vault_run, 10);
    if rename_ok {
        assert(ta.remove(source).insert(temp).remove(temp).insert(dest) =~= t3);
    } else {
        assert(ta.insert(temp).remove(temp).insert(dest).remove(source) =~= t3);
    }
    assert(vault_run(VaultStage::CheckDestExists, false, t, source, temp, dest, shard, rename_ok, 9)
        == (VaultStage::Vaulted, t3));
    let t4 = t3.remove(dest);
    assert(dir_is_empty(t4, shard)) by {
        assert forall|p: Seq<char>| #[trigger] t4.contains(p) implies !below(shard, p) by {
            if below(shard, p) {
                lemma_below_trans(prefix, shard, p);
            }
        }
    }
    let t5 = t4.remove(shard);
    assert(dir_is_empty(t5, prefix)) by {
        assert forall|p: Seq<char>| #[trigger] t5.contains(p) implies !below(prefix, p) by {
            if below(prefix, p) && !t.contains(p) {
                assert(p == prefix);
            }
        }
    }
    let t6 = t5.remove(prefix);
    assert(t6 =~= t.remove(source));
    reveal_with_fuel(prune_run, 7);
    assert(prune_run(PruneStage::CheckVaultFile, t3, dest, shard, prefix, 6) == (
        PruneStage::Pruned,
        t6,
    ));
}

/// Pruning a hash on any tree ends normally and takes the vault file away,
/// removing nothing else but directories it found empty; a shard directory
/// that still holds other entries is kept, with everything in it.
pub proof fn law_prune_removes_vault_file_and_keeps_the_rest(
    t: Set<Seq<char>>,
    dest: Seq<char>,
    shard: Seq<char>,
    prefix: Seq<char>,
)
    ensures
        ({
            let pruned = prune_run(PruneStage::CheckVaultFile, t, dest, shard, prefix, 6);
            &&& pruned.0 == PruneStage::Pruned
            &&& !pruned.1.contains(dest)
            &&& pruned.1.subset_of(t)
            &&& forall|p: Seq<char>|
                #![trigger pruned.1.contains(p)]
                t.contains(p) && p != dest && p != shard && p != prefix ==> pruned.1.contains(p)
            &&& !dir_is_empty(t.remove(dest), shard) ==> pruned.1 == t.remove(dest)
        }),
{
    reveal_with_fuel(prune_run, 7);
    let t1 = t.remove(dest);
    if !t.contains(dest) {
        assert(t1 =~= t);
    } else if dir_is_empty(t1, shard) {
        let t2 = t1.remove(shard);
        if dir_is_empty(t2, prefix) {
            let t3 = t2.remove(prefix);
            assert(prune_run(PruneStage::CheckVaultFile, t, dest, shard, prefix, 6) == (
                PruneStage::Pruned,
                t3,
            ));
        } else {
            assert(prune_run(PruneStage::CheckVaultFile, t, dest, shard, prefix, 6) == (
                PruneStage::Pruned,
                t2,
            ));
        }
    } else {
        assert(prune_run(PruneStage::CheckVaultFile, t, dest, shard, prefix, 6) == (
            PruneStage::Pruned,
            t1,
        ));
    }
}

} // verus!
