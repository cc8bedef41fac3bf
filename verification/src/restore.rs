//! The decisions of a restore: which files are deduplicated and need a
//! physical copy back, and how the reference counts and the vault follow.

use vstd::prelude::*;
use crate::batching::{OpLedger, FLUSH_THRESHOLD};
use crate::pipeline::same_hash;
use crate::state::{DbOp, StoreModel, apply_ops, stored_refcount, stored_metadata, stored_vaulted, law_read_back_after_write};

verus! {

/// Whether a walked file is to be restored.
#[derive(Debug, Clone, Copy, PartialEq, Eq)]
pub enum RestoreDecision {
    /// Not deduplicated: leave it.
    Skip,
    /// Restore it; `target` is the content hash whose reference count it
    /// held, when the index knows it.
    Restore { target: Option<crate::types::Hash> },
    /// Restore it if the vault holds a copy of this hash.
    CheckVaultCopy(crate::types::Hash),
}

/// Whether a file needs restoring, from whether its inode is recorded as a
/// hard link into the vault and the content hash the index records for its
/// path (`None`: none recorded, or the lookup failed).
pub fn restore_check(vaulted: bool, indexed: Option<crate::types::Hash>) -> (d: RestoreDecision)
    ensures
        vaulted ==> d == (RestoreDecision::Restore { target: indexed }),
        !vaulted ==> d == (match indexed {
            Some(h) => RestoreDecision::CheckVaultCopy(h),
            None => RestoreDecision::Skip,
        }),
{
    if vaulted {
        RestoreDecision::Restore { target: indexed }
    } else {
        match indexed {
            Some(h) => RestoreDecision::CheckVaultCopy(h),
            None => RestoreDecision::Skip,
        }
    }
}

/// After checking the vault: a file whose indexed content is in the vault
/// is a reflinked duplicate, to be restored.
pub fn after_vault_check(hash: crate::types::Hash, vault_copy_exists: bool) -> (d: RestoreDecision)
    ensures
        d == (if vault_copy_exists {
            RestoreDecision::Restore { target: Some(hash) }
        } else {
            RestoreDecision::Skip
        }),
{
    if vault_copy_exists {
        RestoreDecision::Restore { target: Some(hash) }
    } else {
        RestoreDecision::Skip
    }
}

/// What a restore run does with a file it decided to restore.
#[derive(Debug, Clone, Copy, PartialEq, Eq)]
pub enum RestoreAction {
    /// Dry run: only report the restore and, when the file's content hash
    /// is known, the reference count that would be taken down; nothing on
    /// disk or in the index changes.
    Report { decrement: Option<crate::types::Hash> },
    /// Copy the file back and record the restore.
    Restore,
}

/// The action for a file to restore whose content hash is `target`, if
/// known: a dry run only reports it.
pub fn restore_action(dry_run: bool, target: Option<crate::types::Hash>) -> (action: RestoreAction)
    ensures
        action == (if dry_run {
            RestoreAction::Report { decrement: target }
        } else {
            RestoreAction::Restore
        }),
{
    if dry_run {
        RestoreAction::Report { decrement: target }
    } else {
        RestoreAction::Restore
    }
}

/// Whether restoring a file prunes the vault copy of `target`, given the
/// reference count read for it: only when that count was one.
pub open spec fn restore_prunes(target: Option<crate::types::Hash>, refcount: Option<u64>) -> bool {
    target is Some && refcount == Some(1u64)
}

/// The operations recorded for a restored file.
pub open spec fn restore_ops_spec(
    inode: u64,
    path: String,
    target: Option<crate::types::Hash>,
    refcount: Option<u64>,
) -> Seq<DbOp> {
    seq![DbOp::UnmarkInodeVaulted(inode), DbOp::RemoveFileFromIndex(path)] + match (
        target,
        refcount,
    ) {
        (Some(h), Some(count)) => if count == 0 {
            Seq::empty()
        } else if count == 1 {
            seq![DbOp::RemoveCasRefcount(h)]
        } else {
            seq![DbOp::SetCasRefcount(h, (count - 1) as u64)]
        },
        _ => Seq::empty(),
    }
}

/// What a restored file changes in the database and the vault.
#[derive(Debug)]
pub struct RestoreUpdate {
    /// The operations to record.
    pub ops: Vec<DbOp>,
    /// Whether the vault copy is to be removed: nothing refers to it.
    pub prune_vault: bool,
}

/// The operations that follow a successful restore of the file at `path`
/// with inode `inode`: the inode is no longer vaulted, the path no longer
/// indexed, and the content's reference count drops by one; when it drops
/// to zero the count is removed and the vault copy pruned. `refcount` is
/// the count read for `target` (`None`: no target, or the read failed); a
/// count that is zero or could not be read is left alone.
pub fn restore_update(
    inode: u64,
    path: String,
    target: Option<crate::types::Hash>,
    refcount: Option<u64>,
) -> (update: RestoreUpdate)
    ensures
        update.prune_vault == restore_prunes(target, refcount),
        update.ops@ == restore_ops_spec(inode, path, target, refcount),
{
    let mut ops: Vec<DbOp> = Vec::new();
    ops.push(DbOp::UnmarkInodeVaulted(inode));
    ops.push(DbOp::RemoveFileFromIndex(path));
    let mut prune_vault = false;
    match (target, refcount) {
        (Some(h), Some(count)) => {
            if count > 0 {
                let remaining = count - 1;
                if remaining == 0 {
                    prune_vault = true;
                    ops.push(DbOp::RemoveCasRefcount(h));
                } else {
                    ops.push(DbOp::SetCasRefcount(h, remaining));
                }
            }
        },
        _ => {},
    }
    RestoreUpdate { ops, prune_vault }
}

/// Restoring undoes deduplication one file at a time: once a group of `n`
/// files has recorded its count, a restore of one of its files reads back
/// `n`, leaves `n - 1`, forgets the file's path and inode, and prunes the
/// vault copy exactly when the file was the last one.
pub proof fn law_restore_follows_recorded_count(
    store: StoreModel,
    earlier: Seq<DbOp>,
    hash: crate::types::Hash,
    n: u64,
    inode: u64,
    path: String,
)
    requires
        n >= 1,
    ensures
        ({
            let recorded = apply_ops(store, earlier.push(DbOp::SetCasRefcount(hash, n)));
            let count = stored_refcount(recorded, hash@);
            let after = apply_ops(
                recorded,
                restore_ops_spec(inode, path, Some(hash), Some(count)),
            );
            &&& count == n
            &&& restore_prunes(Some(hash), Some(count)) == (n == 1)
            &&& stored_refcount(after, hash@) == n - 1
            &&& stored_metadata(after, path@) is None
            &&& !stored_vaulted(after, inode)
        }),
{
    let ops = earlier.push(DbOp::SetCasRefcount(hash, n));
    assert(ops.drop_last() =~= earlier);
    let recorded = apply_ops(store, ops);
    law_read_back_after_write(apply_ops(store, earlier), DbOp::SetCasRefcount(hash, n));
    let count = stored_refcount(recorded, hash@);
    assert(count == n);
    let r = restore_ops_spec(inode, path, Some(hash), Some(count));
    let s1 = apply_ops(recorded, r.take(1));
    let s2 = apply_ops(recorded, r.take(2));
    assert(r.take(1).drop_last() =~= Seq::<DbOp>::empty());
    assert(r.take(2).drop_last() =~= r.take(1));
    assert(r[0] == DbOp::UnmarkInodeVaulted(inode));
    assert(r[1] == DbOp::RemoveFileFromIndex(path));
    assert(r.take(1).last() == r[0]);
    assert(r.take(2).last() == r[1]);
    assert(apply_ops(recorded, Seq::<DbOp>::empty()) == recorded);
    assert(s1 == crate::state::apply_write(recorded, crate::state::op_write(r[0])));
    assert(s2 == crate::state::apply_write(s1, crate::state::op_write(r[1])));
    law_read_back_after_write(recorded, DbOp::UnmarkInodeVaulted(inode));
    law_read_back_after_write(s1, DbOp::RemoveFileFromIndex(path));
    assert(s1.cas == recorded.cas);
    assert(s2.cas == recorded.cas);
    assert(s2.vaulted == s1.vaulted);
    if n == 1 {
        assert(r.len() == 3);
        assert(r.drop_last() =~= r.take(2));
        assert(r.last() == DbOp::RemoveCasRefcount(hash));
        law_read_back_after_write(s2, DbOp::RemoveCasRefcount(hash));
    } else {
        assert(r.len() == 3);
        assert(r.drop_last() =~= r.take(2));
        assert(r.last() == DbOp::SetCasRefcount(hash, (n - 1) as u64));
        law_read_back_after_write(s2, DbOp::SetCasRefcount(hash, (n - 1) as u64));
    }
}

/// The count recorded for hash `h` among `entries` (hash, count), if any.
pub open spec fn known_count(entries: Seq<(Seq<u8>, u64)>, h: Seq<u8>) -> Option<u64> {
    if exists|i: int| 0 <= i < entries.len() && #[trigger] entries[i].0 == h {
        Some(entries[choose|i: int| 0 <= i < entries.len() && #[trigger] entries[i].0 == h].1)
    } else {
        None
    }
}

/// No hash appears twice among `entries`.
pub open spec fn distinct_keys(entries: Seq<(Seq<u8>, u64)>) -> bool {
    forall|i: int, j: int|
        0 <= i < entries.len() && 0 <= j < entries.len() && i != j ==> #[trigger] entries[i].0
            != #[trigger] entries[j].0
}

/// The count a restore works from: for a file with a target hash, the count
/// this run already knows for it, else the count read from the database.
pub open spec fn effective_count(
    known: Option<u64>,
    target: Option<crate::types::Hash>,
    read: Option<u64>,
) -> Option<u64> {
    match target {
        Some(_) => if known is Some {
            known
        } else {
            read
        },
        None => None,
    }
}

/// The count left once a restore took one off `count` (a zero count stays).
pub open spec fn count_after_restore(count: u64) -> u64 {
    if count == 0 {
        0
    } else {
        (count - 1) as u64
    }
}

proof fn lemma_known_update(entries: Seq<(Seq<u8>, u64)>, i: int, c: u64)
    requires
        distinct_keys(entries),
        0 <= i < entries.len(),
    ensures
        distinct_keys(entries.update(i, (entries[i].0, c))),
        forall|x: Seq<u8>| #[trigger] known_count(entries.update(i, (entries[i].0, c)), x) == if x
            == entries[i].0 {
            Some(c)
        } else {
            known_count(entries, x)
        },
{
    let e2 = entries.update(i, (entries[i].0, c));
    assert forall|x: Seq<u8>| #[trigger] known_count(e2, x) == if x == entries[i].0 {
        Some(c)
    } else {
        known_count(entries, x)
    } by {
        if x == entries[i].0 {
            assert(e2[i].0 == x);
            let k = choose|k: int| 0 <= k < e2.len() && #[trigger] e2[k].0 == x;
            assert(k == i);
        } else {
            if exists|k: int| 0 <= k < e2.len() && #[trigger] e2[k].0 == x {
                let k = choose|k: int| 0 <= k < e2.len() && #[trigger] e2[k].0 == x;
                assert(entries[k].0 == x);
                let k2 = choose|k: int| 0 <= k < entries.len() && #[trigger] entries[k].0 == x;
                assert(k2 == k);
            }
            if exists|k: int| 0 <= k < entries.len() && #[trigger] entries[k].0 == x {
                let k = choose|k: int| 0 <= k < entries.len() && #[trigger] entries[k].0 == x;
                assert(e2[k].0 == x);
            }
        }
    }
}

proof fn lemma_known_push(entries: Seq<(Seq<u8>, u64)>, h: Seq<u8>, c: u64)
    requires
        distinct_keys(entries),
        known_count(entries, h) is None,
    ensures
        distinct_keys(entries.push((h, c))),
        forall|x: Seq<u8>| #[trigger] known_count(entries.push((h, c)), x) == if x == h {
            Some(c)
        } else {
            known_count(entries, x)
        },
{
    let e2 = entries.push((h, c));
    let n = entries.len() as int;
    assert(forall|k: int| 0 <= k < entries.len() ==> entries[k].0 != h);
    assert forall|x: Seq<u8>| #[trigger] known_count(e2, x) == if x == h {
        Some(c)
    } else {
        known_count(entries, x)
    } by {
        if x == h {
            assert(e2[n].0 == x);
            let k = choose|k: int| 0 <= k < e2.len() && #[trigger] e2[k].0 == x;
            assert(k == n);
        } else {
            if exists|k: int| 0 <= k < e2.len() && #[trigger] e2[k].0 == x {
                let k = choose|k: int| 0 <= k < e2.len() && #[trigger] e2[k].0 == x;
                assert(entries[k].0 == x);
                let k2 = choose|k: int| 0 <= k < entries.len() && #[trigger] entries[k].0 == x;
                assert(k2 == k);
            }
            if exists|k: int| 0 <= k < entries.len() && #[trigger] entries[k].0 == x {
                let k = choose|k: int| 0 <= k < entries.len() && #[trigger] entries[k].0 == x;
                assert(e2[k].0 == x);
            }
        }
    }
}

/// What one restore gives back to the caller.
#[derive(Debug)]
pub struct RestoreStep {
    /// Whether the vault copy of the target is to be removed now.
    pub prune_vault: bool,
    /// Operations to write now, in one transaction, if the run's pending
    /// operations reached the flush threshold.
    pub flush: Option<Vec<DbOp>>,
}

/// A restore run: the reference counts it has changed, which stand for the
/// database's while their writes are still pending, and its operations.
pub struct RestoreRun {
    counts: Vec<(crate::types::Hash, u64)>,
    ledger: OpLedger,
}

impl RestoreRun {
    /// The counts this run knows, as (hash, count).
    pub closed spec fn known(&self) -> Seq<(Seq<u8>, u64)> {
        self.counts@.map_values(|e: (crate::types::Hash, u64)| (e.0@, e.1))
    }

    /// The count this run knows for hash `h`.
    pub open spec fn count_of(&self, h: Seq<u8>) -> Option<u64> {
        known_count(self.known(), h)
    }

    /// The operations committed by this run so far.
    pub closed spec fn committed(&self) -> Seq<DbOp> {
        self.ledger.committed()
    }

    /// The operations handed out for writing so far.
    pub closed spec fn flushed(&self) -> Seq<DbOp> {
        self.ledger.flushed()
    }

    /// The operations committed but not handed out yet.
    pub closed spec fn pending(&self) -> Seq<DbOp> {
        self.ledger.pending()
    }

    /// The run's invariant.
    pub closed spec fn wf(&self) -> bool {
        &&& distinct_keys(self.known())
        &&& self.ledger.wf()
    }

    /// A run that has restored nothing.
    pub fn new() -> (run: Self)
        ensures
            run.wf(),
            forall|h: Seq<u8>| #[trigger] run.count_of(h) is None,
            run.committed() == Seq::<DbOp>::empty(),
            run.flushed() == Seq::<DbOp>::empty(),
            run.pending() == Seq::<DbOp>::empty(),
    {
        let run = RestoreRun { counts: Vec::new(), ledger: OpLedger::new() };
        assert(run.known() =~= Seq::<(Seq<u8>, u64)>::empty());
        run
    }

    /// Whether the database's count must be read for a restore with this
    /// target: only when the run does not know the target's count yet.
    pub fn needs_count(&self, target: Option<crate::types::Hash>) -> (needed: bool)
        requires
            self.wf(),
        ensures
            needed == (match target {
                Some(h) => self.count_of(h@) is None,
                None => false,
            }),
    {
        match target {
            Some(h) => self.find(&h).is_none(),
            None => false,
        }
    }

    fn find(&self, h: &crate::types::Hash) -> (found: Option<usize>)
        requires
            self.wf(),
        ensures
            match found {
                Some(i) => i < self.counts@.len() && self.known()[i as int].0 == h@ && self.count_of(
                    h@,
                ) == Some(self.known()[i as int].1),
                None => self.count_of(h@) is None,
            },
    {
        let ghost known = self.known();
        let mut i: usize = 0;
        while i < self.counts.len()
            invariant
                i <= self.counts@.len(),
                known == self.known(),
                distinct_keys(known),
                forall|j: int| 0 <= j < i ==> known[j].0 != h@,
            decreases self.counts@.len() - i,
        {
            if same_hash(&self.counts[i].0, h) {
                proof {
                    assert(known[i as int].0 == h@);
                    let k = choose|k: int| 0 <= k < known.len() && #[trigger] known[k].0 == h@;
                    assert(k == i);
                }
                return Some(i);
            }
            i += 1;
        }
        assert(known_count(known, h@) is None) by {
            if exists|k: int| 0 <= k < known.len() && #[trigger] known[k].0 == h@ {
                let k = choose|k: int| 0 <= k < known.len() && #[trigger] known[k].0 == h@;
                assert(known[k].0 == h@);
            }
        }
        None
    }

    /// Records the successful restore of the file at `path` with inode
    /// `inode`. The target's count is the one this run knows, else `read`,
    /// the count read from the database; the count is taken down by one and
    /// remembered, and the vault copy is pruned when it reaches zero.
    pub fn restored(
        &mut self,
        inode: u64,
        path: String,
        target: Option<crate::types::Hash>,
        read: Option<u64>,
    ) -> (step: RestoreStep)
        requires
            old(self).wf(),
        ensures
            final(self).wf(),
            ({
                let known = match target {
                    Some(h) => old(self).count_of(h@),
                    None => None,
                };
                let count = effective_count(known, target, read);
                &&& step.prune_vault == restore_prunes(target, count)
                &&& final(self).committed() == old(self).committed() + restore_ops_spec(
                    inode,
                    path,
                    target,
                    count,
                )
                &&& forall|h: Seq<u8>| #[trigger]
                    final(self).count_of(h) == match (target, count) {
                        (Some(t), Some(c)) => if t@ == h {
                            Some(count_after_restore(c))
                        } else {
                            old(self).count_of(h)
                        },
                        _ => old(self).count_of(h),
                    }
                &&& {
                    let ops = restore_ops_spec(inode, path, target, count);
                    match step.flush {
                        Some(b) => {
                            &&& old(self).pending().len() + ops.len() >= FLUSH_THRESHOLD
                            &&& b@ == old(self).pending() + ops
                            &&& final(self).flushed() == old(self).flushed() + b@
                            &&& final(self).pending().len() == 0
                        },
                        None => {
                            &&& old(self).pending().len() + ops.len() < FLUSH_THRESHOLD
                            &&& final(self).flushed() == old(self).flushed()
                            &&& final(self).pending() == old(self).pending() + ops
                        },
                    }
                }
            }),
    {
        let ghost old_known = self.known();
        let (found, count) = match target {
            Some(h) => {
                let found = self.find(&h);
                match found {
                    Some(i) => (found, Some(self.counts[i].1)),
                    None => (found, read),
                }
            },
            None => (None, None),
        };
        let update = restore_update(inode, path, target, count);
        match (target, count) {
            (Some(h), Some(c)) => {
                let left = if c == 0 {
                    0
                } else {
                    c - 1
                };
                match found {
                    Some(i) => {
                        proof {
                            lemma_known_update(old_known, i as int, left);
                        }
                        self.counts.set(i, (h, left));
                        assert(self.known() =~= old_known.update(i as int, (h@, left)));
                    },
                    None => {
                        proof {
                            lemma_known_push(old_known, h@, left);
                        }
                        self.counts.push((h, left));
                        assert(self.known() =~= old_known.push((h@, left)));
                    },
                }
            },
            _ => {},
        }
        let flush = self.ledger.commit(update.ops);
        RestoreStep { prune_vault: update.prune_vault, flush }
    }

    /// Ends the run: hands out what remains pending, if anything; with it,
    /// everything committed has been handed out.
    pub fn finish(self) -> (batch: Option<Vec<DbOp>>)
        requires
            self.wf(),
        ensures
            self.flushed() + (match batch {
                Some(b) => b@,
                None => Seq::<DbOp>::empty(),
            }) == self.committed(),
            batch is Some ==> batch->0@.len() > 0,
    {
        self.ledger.finish()
    }
}

/// The count this run knows for a hash after `reads.len()` restores of files
/// of that hash, the i-th done with `reads[i]` read from the database when
/// the run did not know the count yet.
pub open spec fn count_after_restores(known: Option<u64>, reads: Seq<Option<u64>>) -> Option<u64>
    decreases reads.len(),
{
    if reads.len() == 0 {
        known
    } else {
        let before = count_after_restores(known, reads.drop_last());
        match (if before is Some { before } else { reads.last() }) {
            Some(c) => Some(count_after_restore(c)),
            None => None,
        }
    }
}

/// Whether the i-th of those restores prunes the vault copy.
pub open spec fn prunes_at(known: Option<u64>, reads: Seq<Option<u64>>, i: int) -> bool {
    let before = count_after_restores(known, reads.take(i));
    (if before is Some { before } else { reads[i] }) == Some(1u64)
}

/// A restore run counts down: when a hash recorded with count `n` has `k`
/// of its files restored in one run, the count read from the database is
/// used only by the first of them (later ones use the run's own count,
/// whatever the database says while writes are pending); the count left is
/// `n - k` (never below zero), and the vault copy is pruned exactly at the
/// restore that takes the count from one to zero.
pub proof fn law_restore_run_counts_down(n: u64, reads: Seq<Option<u64>>)
    requires
        reads.len() >= 1,
        reads[0] == Some(n),
    ensures
        forall|k: int|
            1 <= k <= reads.len() ==> #[trigger] count_after_restores(None, reads.take(k)) == Some(
                (if k >= n {
                    0
                } else {
                    n - k
                }) as u64,
            ),
        forall|i: int| 0 <= i < reads.len() ==> (#[trigger] prunes_at(None, reads, i) <==> i + 1 == n),
    decreases reads.len(),
{
    if reads.len() == 1 {
        assert(reads.take(1).drop_last() =~= Seq::<Option<u64>>::empty());
        assert(reads.take(0) =~= Seq::<Option<u64>>::empty());
        assert(reads.take(1).last() == reads[0]);
        assert(count_after_restores(None, Seq::<Option<u64>>::empty()) == None::<u64>);
        assert(count_after_restores(None, reads.take(1).drop_last()) == None::<u64>);
        assert(reads.take(1) =~= reads);
        assert(count_after_restores(None, reads.take(1)) == Some(count_after_restore(n)));
    } else {
        let prev = reads.drop_last();
        law_restore_run_counts_down(n, prev);
        let m = reads.len() as int;
        assert forall|k: int| 1 <= k <= reads.len() implies #[trigger] count_after_restores(
            None,
            reads.take(k),
        ) == Some(
            (if k >= n {
                0
            } else {
                n - k
            }) as u64,
        ) by {
            if k < m {
                assert(reads.take(k) =~= prev.take(k));
                assert(count_after_restores(None, prev.take(k)) == Some(
                    (if k >= n {
                        0
                    } else {
                        n - k
                    }) as u64,
                ));
            } else {
                assert(reads.take(k) =~= reads);
                assert(prev.take(m - 1) =~= prev);
                assert(reads.drop_last() =~= prev.take(m - 1));
                assert(count_after_restores(None, prev.take(m - 1)) == Some(
                    (if m - 1 >= n {
                        0
                    } else {
                        n - (m - 1)
                    }) as u64,
                ));
            }
        }
        assert forall|i: int| 0 <= i < reads.len() implies (#[trigger] prunes_at(None, reads, i)
            <==> i + 1 == n) by {
            if i < m - 1 {
                assert(reads.take(i) =~= prev.take(i));
                assert(prunes_at(None, prev, i) <==> i + 1 == n);
            } else {
                assert(reads.take(i) =~= prev.take(m - 1));
                assert(prev.take(m - 1) =~= prev);
                assert(count_after_restores(None, prev.take(m - 1)) == Some(
                    (if m - 1 >= n {
                        0
                    } else {
                        n - (m - 1)
                    }) as u64,
                ));
            }
        }
    }
}

} // verus!
