use bdstorage::batching::{ChannelBatcher, ChannelStage, OpLedger};
use bdstorage::hasher::{same_bytes, sample_offsets};
use bdstorage::dedupe::{choose_link, LinkMethod, GroupEvent, GroupRun, GroupStage, LinkOutcome, LinkType, Note, ReflinkWarning, VerifyOutcome};
use bdstorage::paths::join;
use bdstorage::pipeline::{records_state, count_duplicate_groups, index_file, refcount_ops, same_hash, skip_vaulted, HashGroup, HashGroups, SizeIndex};
use bdstorage::restore::{RestoreRun, after_vault_check, restore_action, restore_check, restore_update, RestoreAction, RestoreDecision};
use bdstorage::scanner::{group_by_size, is_temp_name, scanned_entry, stream_scan, WalkEntry, WalkItem};
use bdstorage::state::{default_db_path, encode_op, hash_key, path_key, plan_batch_write, refcount_from_stored, table_name, DbOp, Table, TableWrite};
use bdstorage::types::{hash_to_hex, FileMetadata};
use bdstorage::vault::{ensure_in_vault, remove_from_vault, shard_dir, shard_path, vault_root, PruneStage, TempCleanup, VaultError, VaultStage};

fn sample_hash() -> bdstorage::types::Hash {
    let mut h = [0u8; 32];
    h[0] = 0xab;
    h[1] = 0xcd;
    h[2] = 0x01;
    h[31] = 0xff;
    h
}

fn sample_hex() -> String {
    format!("abcd01{}ff", "00".repeat(28))
}

fn other_hash() -> bdstorage::types::Hash {
    [7u8; 32]
}

fn entry(path: &str, name: &str, is_file: bool, size: Option<u64>) -> WalkItem {
    WalkItem::Entry(WalkEntry {
        path: path.to_string(),
        file_name: name.to_string(),
        is_file,
        size,
    })
}

fn meta(size: u64) -> FileMetadata {
    FileMetadata { size, modified: 42, hash: sample_hash() }
}

#[test]
fn hex_is_lowercase_two_digits_per_byte() {
    assert_eq!(hash_to_hex(&sample_hash()), sample_hex());
    assert_eq!(hash_to_hex(&[0u8; 32]), "0".repeat(64));
    let mut all = [0u8; 32];
    for (i, b) in all.iter_mut().enumerate() {
        *b = (i as u8) * 8;
    }
    assert_eq!(
        hash_to_hex(&all),
        "0008101820283038404850586068707880889098a0a8b0b8c0c8d0d8e0e8f0f8"
    );
}

#[test]
fn join_inserts_one_separator() {
    assert_eq!(join("/a", "b"), "/a/b");
    assert_eq!(join("/a/", "b"), "/a/b");
    assert_eq!(join("", "b"), "b");
    assert_eq!(join("/", "b"), "/b");
}

#[test]
fn vault_and_database_locations() {
    assert_eq!(vault_root("/home/u"), "/home/u/.imprint/store");
    assert_eq!(default_db_path("/home/u"), "/home/u/.imprint/state.redb");
    assert_eq!(vault_root("/home/u/"), "/home/u/.imprint/store");
}

#[test]
fn shard_path_uses_two_levels_of_hex_prefix() {
    let expected = format!("/home/u/.imprint/store/ab/cd/{}", sample_hex());
    assert_eq!(shard_path("/home/u/.imprint/store", &sample_hash()), expected);
    assert_eq!(shard_dir("/home/u/.imprint/store", &sample_hash()), "/home/u/.imprint/store/ab/cd");
    assert_eq!(shard_path("", &sample_hash()), format!("ab/cd/{}", sample_hex()));
    assert_eq!(
        shard_path("/v", &other_hash()),
        format!("/v/07/07/{}", "07".repeat(32))
    );
}

#[test]
fn temp_cleanup_guard_arms_and_disarms() {
    let mut guard = TempCleanup::new("/v/x.imprint_tmp".to_string());
    assert!(guard.armed());
    assert_eq!(guard.path(), "/v/x.imprint_tmp");
    guard.disarm();
    assert!(!guard.armed());
    assert_eq!(guard.path(), "/v/x.imprint_tmp");
}

#[test]
fn vaulting_by_copy_removes_source_last() {
    let mut p = ensure_in_vault("/v", &sample_hash(), "/data/f".to_string());
    let dest = format!("/v/ab/cd/{}", sample_hex());
    assert_eq!(p.dest(), dest);
    assert_eq!(p.parent(), "/v/ab/cd");
    assert_eq!(p.temp(), format!("{}.imprint_tmp", dest));
    assert_eq!(p.source(), "/data/f");
    assert_eq!(p.stage(), VaultStage::CheckDestExists);
    p.advance(false);
    assert_eq!(p.stage(), VaultStage::CreateParentDir);
    p.advance(true);
    assert_eq!(p.stage(), VaultStage::CheckTempExists);
    p.advance(true);
    assert_eq!(p.stage(), VaultStage::RemoveStaleTemp);
    p.advance(true);
    assert_eq!(p.stage(), VaultStage::RenameSourceToTemp);
    assert!(p.cleanup().is_none());
    p.advance(false);
    assert_eq!(p.stage(), VaultStage::CopySourceToTemp);
    assert!(p.used_copy());
    assert_eq!(p.cleanup().as_ref().map(|c| (c.path(), c.armed())), Some((p.temp(), true)));
    p.advance(true);
    assert_eq!(p.stage(), VaultStage::OpenTempForSync);
    p.advance(true);
    assert_eq!(p.stage(), VaultStage::SyncTemp);
    p.advance(true);
    assert_eq!(p.stage(), VaultStage::RenameTempToDest);
    p.advance(true);
    assert_eq!(p.stage(), VaultStage::RemoveSource);
    assert_eq!(p.cleanup().as_ref().map(|c| c.armed()), Some(false));
    p.advance(true);
    assert_eq!(p.stage(), VaultStage::Vaulted);
}

#[test]
fn vaulting_by_rename_and_existing_copy() {
    let mut p = ensure_in_vault("/v", &sample_hash(), "/data/f".to_string());
    p.advance(true);
    assert_eq!(p.stage(), VaultStage::Vaulted);

    let mut q = ensure_in_vault("/v", &sample_hash(), "/data/f".to_string());
    q.advance(false);
    q.advance(true);
    q.advance(false);
    assert_eq!(q.stage(), VaultStage::RenameSourceToTemp);
    q.advance(true);
    assert_eq!(q.stage(), VaultStage::RenameTempToDest);
    assert!(!q.used_copy());
    q.advance(true);
    assert_eq!(q.stage(), VaultStage::Vaulted);
    assert_eq!(q.cleanup().as_ref().map(|c| c.armed()), Some(false));
}

#[test]
fn vaulting_failures_name_their_step() {
    let mut p = ensure_in_vault("/v", &sample_hash(), "/data/f".to_string());
    p.advance(false);
    p.advance(false);
    assert_eq!(p.stage(), VaultStage::Failed(VaultError::CreateDir));
    assert!(p.cleanup().is_none());

    let mut q = ensure_in_vault("/v", &sample_hash(), "/data/f".to_string());
    q.advance(false);
    q.advance(true);
    q.advance(false);
    q.advance(false);
    q.advance(false);
    assert_eq!(q.stage(), VaultStage::Failed(VaultError::CopyToTemp));
    assert_eq!(q.cleanup().as_ref().map(|c| c.armed()), Some(true));

    let mut r = ensure_in_vault("/v", &sample_hash(), "/data/f".to_string());
    r.advance(false);
    r.advance(true);
    r.advance(false);
    r.advance(true);
    assert!(r.source_moved());
    r.advance(false);
    assert_eq!(r.stage(), VaultStage::RestoreSourceFromTemp);
    assert!(r.source_moved());
    r.advance(true);
    assert_eq!(r.stage(), VaultStage::Failed(VaultError::Finalize));
    assert!(!r.source_moved());
    assert_eq!(r.cleanup().as_ref().map(|c| c.armed()), Some(true));
    assert_eq!(VaultError::Finalize.context(), "finalize vault file");

    // the move back fails too: the temp file holds the only copy and is kept
    let mut t = ensure_in_vault("/v", &sample_hash(), "/data/f".to_string());
    t.advance(false);
    t.advance(true);
    t.advance(false);
    t.advance(true);
    t.advance(false);
    t.advance(false);
    assert_eq!(t.stage(), VaultStage::Failed(VaultError::Finalize));
    assert!(t.source_moved());
    assert_eq!(t.cleanup().as_ref().map(|c| c.armed()), Some(false));

    // after a copy, a failed final rename leaves the source in place and
    // the temp copy to be cleaned up
    let mut u = ensure_in_vault("/v", &sample_hash(), "/data/f".to_string());
    u.advance(false);
    u.advance(true);
    u.advance(false);
    u.advance(false);
    u.advance(true);
    u.advance(true);
    u.advance(true);
    assert_eq!(u.stage(), VaultStage::RenameTempToDest);
    u.advance(false);
    assert_eq!(u.stage(), VaultStage::Failed(VaultError::Finalize));
    assert!(!u.source_moved());
    assert_eq!(u.cleanup().as_ref().map(|c| c.armed()), Some(true));
    assert_eq!(VaultError::RemoveCopiedSource.context(), "remove original after copy");
}

#[test]
fn pruning_removes_empty_shard_directories() {
    let mut p = remove_from_vault("/v", &sample_hash());
    assert_eq!(p.dest(), format!("/v/ab/cd/{}", sample_hex()));
    assert_eq!(p.shard_dir(), "/v/ab/cd");
    assert_eq!(p.prefix_dir(), "/v/ab");
    assert_eq!(p.stage(), PruneStage::CheckVaultFile);
    p.advance(true);
    assert_eq!(p.stage(), PruneStage::RemoveVaultFile);
    p.advance(true);
    assert_eq!(p.stage(), PruneStage::CheckShardDirEmpty);
    p.advance(true);
    assert_eq!(p.stage(), PruneStage::RemoveShardDir);
    p.advance(false);
    assert_eq!(p.stage(), PruneStage::CheckPrefixDirEmpty);
    p.advance(false);
    assert_eq!(p.stage(), PruneStage::Pruned);

    let mut q = remove_from_vault("/v", &sample_hash());
    q.advance(false);
    assert_eq!(q.stage(), PruneStage::Pruned);

    let mut r = remove_from_vault("/v", &sample_hash());
    r.advance(true);
    r.advance(false);
    assert_eq!(r.stage(), PruneStage::Failed(bdstorage::vault::PruneError::RemoveVaultFile));
}

#[test]
fn temp_names_are_recognised() {
    assert!(is_temp_name("abc.imprint_tmp"));
    assert!(is_temp_name(".imprint_tmp"));
    assert!(!is_temp_name("abc.imprint_tm"));
    assert!(!is_temp_name("imprint_tmp"));
    assert!(!is_temp_name("abc"));
    assert!(!is_temp_name(""));
}

#[test]
fn scan_keeps_readable_regular_files_only() {
    let items = vec![
        entry("/d/a", "a", true, Some(10)),
        WalkItem::Unreadable,
        entry("/d/sub", "sub", false, Some(4096)),
        entry("/d/x.imprint_tmp", "x.imprint_tmp", true, Some(10)),
        entry("/d/gone", "gone", true, None),
        entry("/d/b", "b", true, Some(20)),
        entry("/d/c", "c", true, Some(10)),
    ];
    assert_eq!(stream_scan(&items), vec!["/d/a".to_string(), "/d/b".to_string(), "/d/c".to_string()]);
    assert_eq!(scanned_entry(&items[0]), Some(("/d/a".to_string(), 10)));
    assert_eq!(scanned_entry(&items[3]), None);
    let groups = group_by_size(&items);
    assert_eq!(groups.len(), 2);
    assert_eq!(groups[&10], vec!["/d/a".to_string(), "/d/c".to_string()]);
    assert_eq!(groups[&20], vec!["/d/b".to_string()]);
    assert!(group_by_size(&vec![]).is_empty());
}

#[test]
fn size_index_hashes_only_shared_sizes() {
    let mut index = SizeIndex::new();
    assert!(index.record(10, "a".to_string()).is_empty());
    assert!(index.record(20, "b".to_string()).is_empty());
    assert_eq!(index.record(10, "c".to_string()), vec!["a".to_string(), "c".to_string()]);
    assert_eq!(index.record(10, "d".to_string()), vec!["d".to_string()]);
    assert!(index.record(30, "e".to_string()).is_empty());
    assert_eq!(index.record(20, "f".to_string()), vec!["b".to_string(), "f".to_string()]);
    let groups = index.into_groups();
    assert_eq!(groups[&10], vec!["a".to_string(), "c".to_string(), "d".to_string()]);
    assert_eq!(groups[&30], vec!["e".to_string()]);
}

#[test]
fn hashing_workers_skip_vaulted_inodes_only() {
    assert!(skip_vaulted(Some(true)));
    assert!(!skip_vaulted(Some(false)));
    assert!(!skip_vaulted(None));
    assert_eq!(
        index_file("p".to_string(), 5, None, sample_hash()),
        DbOp::UpsertFile("p".to_string(), FileMetadata { size: 5, modified: 0, hash: sample_hash() })
    );
    assert_eq!(
        index_file("p".to_string(), 5, Some(9), sample_hash()),
        DbOp::UpsertFile("p".to_string(), FileMetadata { size: 5, modified: 9, hash: sample_hash() })
    );
}

#[test]
fn hash_groups_collect_by_content() {
    assert!(same_hash(&sample_hash(), &sample_hash()));
    assert!(!same_hash(&sample_hash(), &other_hash()));
    let mut groups = HashGroups::new();
    groups.add(sample_hash(), "a".to_string());
    groups.add(other_hash(), "b".to_string());
    groups.add(sample_hash(), "c".to_string());
    let groups = groups.into_groups();
    assert_eq!(
        groups,
        vec![
            HashGroup { hash: sample_hash(), paths: vec!["a".to_string(), "c".to_string()] },
            HashGroup { hash: other_hash(), paths: vec!["b".to_string()] },
        ]
    );
    assert_eq!(refcount_ops(&groups), vec![DbOp::SetCasRefcount(sample_hash(), 2)]);
    assert_eq!(count_duplicate_groups(&groups), 1);
    assert_eq!(count_duplicate_groups(&vec![]), 0);
}

#[test]
fn operations_encode_to_table_writes() {
    assert_eq!(table_name(Table::FileIndex), "file_index");
    assert_eq!(table_name(Table::CasIndex), "cas_index");
    assert_eq!(table_name(Table::VaultedInodes), "vaulted_inodes");
    assert_eq!(
        encode_op(&DbOp::SetCasRefcount(sample_hash(), 0x0102)),
        TableWrite::Insert { table: Table::CasIndex, key: sample_hash().to_vec(), value: vec![2, 1, 0, 0, 0, 0, 0, 0] }
    );
    assert_eq!(
        encode_op(&DbOp::MarkInodeVaulted(258)),
        TableWrite::Insert { table: Table::VaultedInodes, key: vec![2, 1, 0, 0, 0, 0, 0, 0], value: vec![1] }
    );
    assert_eq!(
        encode_op(&DbOp::UnmarkInodeVaulted(1 << 56)),
        TableWrite::Remove { table: Table::VaultedInodes, key: vec![0, 0, 0, 0, 0, 0, 0, 1] }
    );
    assert_eq!(
        encode_op(&DbOp::UpsertFile("/d/é".to_string(), meta(3))),
        TableWrite::InsertMetadata { key: "/d/é".as_bytes().to_vec(), metadata: meta(3) }
    );
    assert_eq!(
        encode_op(&DbOp::RemoveFileFromIndex("/d/a".to_string())),
        TableWrite::Remove { table: Table::FileIndex, key: b"/d/a".to_vec() }
    );
    assert_eq!(
        encode_op(&DbOp::RemoveCasRefcount(other_hash())),
        TableWrite::Remove { table: Table::CasIndex, key: vec![7u8; 32] }
    );
    assert_eq!(path_key(&"é".to_string()), vec![0xc3, 0xa9]);
    assert_eq!(hash_key(&sample_hash()), sample_hash().to_vec());
}

#[test]
fn batch_writes_follow_operation_order() {
    let ops = vec![
        DbOp::MarkInodeVaulted(1),
        DbOp::SetCasRefcount(sample_hash(), 3),
        DbOp::RemoveCasRefcount(sample_hash()),
    ];
    let writes = plan_batch_write(&ops);
    assert_eq!(writes.len(), 3);
    assert_eq!(writes[0], encode_op(&ops[0]));
    assert_eq!(writes[1], encode_op(&ops[1]));
    assert_eq!(writes[2], encode_op(&ops[2]));
    assert!(plan_batch_write(&vec![]).is_empty());
}

#[test]
fn refcount_reads_back_little_endian() {
    assert_eq!(refcount_from_stored(None), 0);
    assert_eq!(refcount_from_stored(Some(&[5, 0, 0, 0, 0, 0, 0, 1])), 5 + (1u64 << 56));
    let written = encode_op(&DbOp::SetCasRefcount(sample_hash(), 123456789));
    match written {
        TableWrite::Insert { value, .. } => assert_eq!(refcount_from_stored(Some(&value)), 123456789),
        _ => panic!("a reference count is an insert"),
    }
}

#[test]
fn channel_writer_batches_in_order() {
    let mut b = ChannelBatcher::new();
    assert_eq!(b.stage(), ChannelStage::Draining(0));
    b.receive(Some(DbOp::MarkInodeVaulted(1)));
    b.receive(Some(DbOp::MarkInodeVaulted(2)));
    assert_eq!(b.stage(), ChannelStage::Draining(2));
    b.receive(None);
    assert_eq!(b.stage(), ChannelStage::Flush);
    assert_eq!(b.take_batch(), vec![DbOp::MarkInodeVaulted(1), DbOp::MarkInodeVaulted(2)]);
    assert_eq!(b.stage(), ChannelStage::Draining(0));
    b.receive(None);
    assert_eq!(b.stage(), ChannelStage::Waiting);
    b.receive(Some(DbOp::MarkInodeVaulted(3)));
    assert_eq!(b.stage(), ChannelStage::Topping);
    b.receive(Some(DbOp::MarkInodeVaulted(4)));
    assert_eq!(b.stage(), ChannelStage::Topping);
    b.receive(None);
    assert_eq!(b.stage(), ChannelStage::Flush);
    assert_eq!(b.take_batch(), vec![DbOp::MarkInodeVaulted(3), DbOp::MarkInodeVaulted(4)]);
    b.receive(None);
    b.receive(None);
    assert_eq!(b.stage(), ChannelStage::Closed);
}

#[test]
fn channel_writer_caps_batches() {
    let mut b = ChannelBatcher::new();
    for i in 0..1000u64 {
        assert_eq!(b.stage(), ChannelStage::Draining(i as usize));
        b.receive(Some(DbOp::MarkInodeVaulted(i)));
    }
    assert_eq!(b.stage(), ChannelStage::Flush);
    let batch = b.take_batch();
    assert_eq!(batch.len(), 1000);
    assert_eq!(batch[999], DbOp::MarkInodeVaulted(999));

    let mut c = ChannelBatcher::new();
    c.receive(None);
    c.receive(Some(DbOp::MarkInodeVaulted(0)));
    for i in 1..999u64 {
        c.receive(Some(DbOp::MarkInodeVaulted(i)));
        assert_eq!(c.stage(), ChannelStage::Topping);
    }
    c.receive(Some(DbOp::MarkInodeVaulted(999)));
    assert_eq!(c.stage(), ChannelStage::Flush);
    assert_eq!(c.take_batch().len(), 1000);
}

#[test]
fn ledger_flushes_at_threshold() {
    let mut ledger = OpLedger::new();
    let many: Vec<DbOp> = (0..999u64).map(DbOp::MarkInodeVaulted).collect();
    assert!(ledger.commit(many).is_none());
    let flushed = ledger.commit(vec![DbOp::MarkInodeVaulted(999), DbOp::MarkInodeVaulted(1000)]);
    let flushed = flushed.expect("threshold reached");
    assert_eq!(flushed.len(), 1001);
    assert_eq!(flushed[0], DbOp::MarkInodeVaulted(0));
    assert_eq!(flushed[1000], DbOp::MarkInodeVaulted(1000));
    assert!(ledger.commit(vec![DbOp::MarkInodeVaulted(5)]).is_none());
    assert_eq!(ledger.finish(), Some(vec![DbOp::MarkInodeVaulted(5)]));
    assert_eq!(OpLedger::new().finish(), None);
}

#[test]
fn group_of_one_is_left_alone() {
    assert!(GroupRun::start(sample_hash(), 1, false, false).is_none());
    assert!(GroupRun::start(sample_hash(), 0, true, true).is_none());
}

#[test]
fn group_records_hard_links_and_refcount() {
    let mut g = GroupRun::start(sample_hash(), 3, false, false).unwrap();
    assert_eq!(g.stage(), GroupStage::PlaceMaster);
    assert_eq!(g.advance(GroupEvent::Placed(true)), Note::Nothing);
    assert_eq!(g.stage(), GroupStage::LinkFile(0));
    assert_eq!(
        g.advance(GroupEvent::Linked(LinkOutcome::Reflinked)),
        Note::Linked { link: LinkType::Reflink, verified: false }
    );
    assert_eq!(g.stage(), GroupStage::LinkFile(1));
    assert_eq!(
        g.advance(GroupEvent::Linked(LinkOutcome::HardLinked(77))),
        Note::Linked { link: LinkType::HardLink, verified: false }
    );
    assert_eq!(g.advance(GroupEvent::Linked(LinkOutcome::Unchanged)), Note::Nothing);
    assert_eq!(g.stage(), GroupStage::Done);
    assert_eq!(
        g.finish(),
        Some(vec![DbOp::MarkInodeVaulted(77), DbOp::SetCasRefcount(sample_hash(), 3)])
    );
}

#[test]
fn paranoid_group_verifies_each_duplicate() {
    let mut g = GroupRun::start(sample_hash(), 3, true, false).unwrap();
    g.advance(GroupEvent::Placed(true));
    assert_eq!(g.stage(), GroupStage::CheckMasterExists);
    g.advance(GroupEvent::MasterExists(false));
    assert_eq!(g.stage(), GroupStage::LinkFile(0));
    g.advance(GroupEvent::Linked(LinkOutcome::Reflinked));
    assert_eq!(g.stage(), GroupStage::VerifyFile(1));
    assert_eq!(g.advance(GroupEvent::Verified(VerifyOutcome::Mismatch)), Note::Collision);
    assert_eq!(g.stage(), GroupStage::VerifyFile(2));
    assert_eq!(g.advance(GroupEvent::Verified(VerifyOutcome::Match)), Note::Nothing);
    assert_eq!(g.stage(), GroupStage::LinkFile(2));
    assert_eq!(
        g.advance(GroupEvent::Linked(LinkOutcome::Reflinked)),
        Note::Linked { link: LinkType::Reflink, verified: true }
    );
    assert_eq!(g.stage(), GroupStage::Done);
    assert_eq!(g.finish(), Some(vec![DbOp::SetCasRefcount(sample_hash(), 3)]));
}

#[test]
fn paranoid_master_mismatch_abandons_group() {
    let mut g = GroupRun::start(sample_hash(), 2, true, false).unwrap();
    g.advance(GroupEvent::Placed(true));
    g.advance(GroupEvent::MasterExists(true));
    assert_eq!(g.stage(), GroupStage::VerifyFile(0));
    assert_eq!(g.advance(GroupEvent::Verified(VerifyOutcome::Failed)), Note::VerifyFailed);
    assert_eq!(g.stage(), GroupStage::Abandoned);
    assert_eq!(g.finish(), None);
}

#[test]
fn unsupported_reflink_puts_master_back() {
    let mut g = GroupRun::start(sample_hash(), 2, false, false).unwrap();
    g.advance(GroupEvent::Placed(true));
    assert_eq!(g.advance(GroupEvent::Linked(LinkOutcome::ReflinkUnsupported)), Note::Nothing);
    assert_eq!(g.stage(), GroupStage::RestoreMaster { abort: false });
    assert_eq!(g.advance(GroupEvent::Handled), Note::ReflinkUnsupported);
    assert_eq!(g.stage(), GroupStage::Abandoned);
    assert_eq!(g.finish(), None);

    let mut h = GroupRun::start(sample_hash(), 2, false, false).unwrap();
    h.advance(GroupEvent::Placed(true));
    h.advance(GroupEvent::Linked(LinkOutcome::Reflinked));
    assert_eq!(h.advance(GroupEvent::Linked(LinkOutcome::ReflinkUnsupported)), Note::ReflinkUnsupported);
    assert_eq!(h.stage(), GroupStage::Done);
    assert_eq!(h.finish(), Some(vec![DbOp::SetCasRefcount(sample_hash(), 2)]));
}

#[test]
fn failures_abort_the_run() {
    let mut g = GroupRun::start(sample_hash(), 2, false, false).unwrap();
    g.advance(GroupEvent::Placed(false));
    assert_eq!(g.stage(), GroupStage::Aborted);
    let mut h = GroupRun::start(sample_hash(), 2, false, false).unwrap();
    h.advance(GroupEvent::Placed(true));
    assert_eq!(h.advance(GroupEvent::Linked(LinkOutcome::Failed)), Note::Nothing);
    assert_eq!(h.stage(), GroupStage::RestoreMaster { abort: true });
    assert_eq!(h.advance(GroupEvent::Handled), Note::Nothing);
    assert_eq!(h.stage(), GroupStage::Aborted);
    assert_eq!(h.finish(), None);
    let mut d = GroupRun::start(sample_hash(), 3, false, false).unwrap();
    d.advance(GroupEvent::Placed(true));
    d.advance(GroupEvent::Linked(LinkOutcome::Reflinked));
    d.advance(GroupEvent::Linked(LinkOutcome::Failed));
    assert_eq!(d.stage(), GroupStage::Aborted);
}

#[test]
fn hard_links_only_when_allowed() {
    assert_eq!(choose_link(true, false), LinkMethod::Reflink);
    assert_eq!(choose_link(true, true), LinkMethod::Reflink);
    assert_eq!(choose_link(false, true), LinkMethod::HardLink);
    assert_eq!(choose_link(false, false), LinkMethod::Refuse);
}

#[test]
fn only_real_deduplication_records_state() {
    assert!(records_state(false, false));
    assert!(!records_state(true, false));
    assert!(!records_state(false, true));
    assert!(!records_state(true, true));
}

#[test]
fn restore_run_counts_down_across_pending_writes() {
    let mut run = RestoreRun::new();
    assert!(run.needs_count(Some(sample_hash())));
    assert!(!run.needs_count(None));
    // three files of one hash recorded with count 3; the database keeps
    // answering 3 while the run's writes are pending
    let first = run.restored(1, "/d/a".to_string(), Some(sample_hash()), Some(3));
    assert!(!first.prune_vault);
    assert!(!run.needs_count(Some(sample_hash())));
    assert!(run.needs_count(Some(other_hash())));
    let second = run.restored(2, "/d/b".to_string(), Some(sample_hash()), Some(3));
    assert!(!second.prune_vault);
    let other = run.restored(9, "/d/z".to_string(), Some(other_hash()), Some(5));
    assert!(!other.prune_vault);
    let third = run.restored(3, "/d/c".to_string(), Some(sample_hash()), Some(3));
    assert!(third.prune_vault);
    let ops = run.finish().unwrap();
    assert_eq!(
        ops,
        vec![
            DbOp::UnmarkInodeVaulted(1),
            DbOp::RemoveFileFromIndex("/d/a".to_string()),
            DbOp::SetCasRefcount(sample_hash(), 2),
            DbOp::UnmarkInodeVaulted(2),
            DbOp::RemoveFileFromIndex("/d/b".to_string()),
            DbOp::SetCasRefcount(sample_hash(), 1),
            DbOp::UnmarkInodeVaulted(9),
            DbOp::RemoveFileFromIndex("/d/z".to_string()),
            DbOp::SetCasRefcount(other_hash(), 4),
            DbOp::UnmarkInodeVaulted(3),
            DbOp::RemoveFileFromIndex("/d/c".to_string()),
            DbOp::RemoveCasRefcount(sample_hash()),
        ]
    );
    let mut unknown = RestoreRun::new();
    let s = unknown.restored(4, "/d/q".to_string(), None, None);
    assert!(!s.prune_vault);
    assert!(s.flush.is_none());
    assert_eq!(unknown.finish().unwrap().len(), 2);
}

#[test]
fn restore_run_flushes_when_pending_reaches_threshold() {
    let mut run = RestoreRun::new();
    // each restore without a known hash commits two operations
    for i in 0..499u64 {
        let s = run.restored(i, format!("/d/{}", i), None, None);
        assert!(s.flush.is_none());
    }
    let s = run.restored(499, "/d/499".to_string(), None, None);
    let batch = s.flush.expect("pending reached the threshold");
    assert_eq!(batch.len(), 1000);
    assert_eq!(batch[0], DbOp::UnmarkInodeVaulted(0));
    assert_eq!(batch[999], DbOp::RemoveFileFromIndex("/d/499".to_string()));
    assert_eq!(run.finish(), None);
}

#[test]
fn dry_run_group_only_reports() {
    let mut g = GroupRun::start(sample_hash(), 2, true, true).unwrap();
    assert_eq!(g.advance(GroupEvent::Placed(true)), Note::VerificationSkipped);
    assert_eq!(g.stage(), GroupStage::ReportDryRun(0));
    g.advance(GroupEvent::Handled);
    assert_eq!(g.stage(), GroupStage::ReportDryRun(1));
    g.advance(GroupEvent::Handled);
    assert_eq!(g.stage(), GroupStage::Done);
    assert_eq!(g.finish(), None);
}

#[test]
fn reflink_warning_is_shown_once() {
    let mut w = ReflinkWarning::new();
    assert!(w.take());
    assert!(!w.take());
    assert!(w.shown());
}

#[test]
fn restore_dry_run_only_reports() {
    assert_eq!(
        restore_action(true, Some(sample_hash())),
        RestoreAction::Report { decrement: Some(sample_hash()) }
    );
    assert_eq!(restore_action(true, None), RestoreAction::Report { decrement: None });
    assert_eq!(restore_action(false, Some(sample_hash())), RestoreAction::Restore);
}

#[test]
fn restore_targets() {
    assert_eq!(restore_check(true, None), RestoreDecision::Restore { target: None });
    assert_eq!(restore_check(true, Some(sample_hash())), RestoreDecision::Restore { target: Some(sample_hash()) });
    assert_eq!(restore_check(false, Some(sample_hash())), RestoreDecision::CheckVaultCopy(sample_hash()));
    assert_eq!(restore_check(false, None), RestoreDecision::Skip);
    assert_eq!(after_vault_check(sample_hash(), true), RestoreDecision::Restore { target: Some(sample_hash()) });
    assert_eq!(after_vault_check(sample_hash(), false), RestoreDecision::Skip);
}

#[test]
fn restore_decrements_and_prunes_at_zero() {
    let last = restore_update(5, "/d/a".to_string(), Some(sample_hash()), Some(1));
    assert!(last.prune_vault);
    assert_eq!(
        last.ops,
        vec![
            DbOp::UnmarkInodeVaulted(5),
            DbOp::RemoveFileFromIndex("/d/a".to_string()),
            DbOp::RemoveCasRefcount(sample_hash()),
        ]
    );
    let more = restore_update(5, "/d/a".to_string(), Some(sample_hash()), Some(3));
    assert!(!more.prune_vault);
    assert_eq!(more.ops[2], DbOp::SetCasRefcount(sample_hash(), 2));
    assert_eq!(more.ops.len(), 3);
    let zero = restore_update(5, "/d/a".to_string(), Some(sample_hash()), Some(0));
    assert!(!zero.prune_vault);
    assert_eq!(zero.ops.len(), 2);
    let unknown = restore_update(6, "/d/b".to_string(), None, None);
    assert!(!unknown.prune_vault);
    assert_eq!(unknown.ops, vec![DbOp::UnmarkInodeVaulted(6), DbOp::RemoveFileFromIndex("/d/b".to_string())]);
    let unread = restore_update(6, "/d/b".to_string(), Some(sample_hash()), None);
    assert_eq!(unread.ops.len(), 2);
}

#[test]
fn refcounts_of_a_group_run_down_to_pruning() {
    // a group of three writes a count of three; each restore takes one off
    let mut g = GroupRun::start(sample_hash(), 3, false, false).unwrap();
    g.advance(GroupEvent::Placed(true));
    for _ in 0..3 {
        g.advance(GroupEvent::Linked(LinkOutcome::Reflinked));
    }
    let ops = g.finish().unwrap();
    let mut count = match &ops[0] {
        DbOp::SetCasRefcount(_, c) => *c,
        _ => panic!("only a count is recorded for reflinks"),
    };
    let mut pruned = 0;
    for i in 0..3 {
        let update = restore_update(i, format!("/d/{}", i), Some(sample_hash()), Some(count));
        if update.prune_vault {
            pruned += 1;
        }
        match update.ops.last().unwrap() {
            DbOp::SetCasRefcount(_, c) => count = *c,
            DbOp::RemoveCasRefcount(_) => count = 0,
            _ => panic!("a restore updates the count"),
        }
    }
    assert_eq!(count, 0);
    assert_eq!(pruned, 1);
}

#[test]
fn blake3_digest_of_bytes() {
    assert_eq!(
        hash_to_hex(&bdstorage::hasher::hash_bytes(b"")),
        "af1349b9f5f9a1a6a0404dea36dcc9499bcb25c9adc112b7cc9a93cae41f3262"
    );
    let whole = bdstorage::hasher::hash_bytes(b"foobarbaz");
    let mut h = bdstorage::hasher::ContentHasher::new();
    h.update(b"foo");
    h.update(b"bar");
    h.update(b"baz");
    assert_eq!(h.finalize(), whole);
    assert_ne!(whole, bdstorage::hasher::hash_bytes(b"foobarbaz!"));
    assert_ne!(&whole[..9], b"foobarbaz");
}

#[test]
fn sparse_samples_cover_start_middle_end() {
    assert_eq!(sample_offsets(12288), None);
    assert_eq!(sample_offsets(0), None);
    assert_eq!(sample_offsets(12289), Some(vec![0, 6144 - 2048, 12289 - 4096]));
    assert_eq!(sample_offsets(100_000), Some(vec![0, 50_000 - 2048, 100_000 - 4096]));
}

#[test]
fn byte_blocks_compare_exactly() {
    assert!(same_bytes(b"abc", b"abc"));
    assert!(same_bytes(b"", b""));
    assert!(!same_bytes(b"abc", b"abd"));
    assert!(!same_bytes(b"abc", b"ab"));
}
