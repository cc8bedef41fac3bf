//! The content-addressed vault: where a hash's master copy lives, and the
//! step-by-step protocols that move a file into the vault and prune it.

use vstd::prelude::*;
use vstd::string::*;
use crate::paths::{join, join_path};
use crate::types::{hash_to_hex, hex_digit, hex_lower};

verus! {

/// The vault directory under a home directory: `<home>/.imprint/store`.
pub open spec fn vault_root_spec(home: Seq<char>) -> Seq<char> {
    join_path(join_path(home, ".imprint"@), "store"@)
}

/// The directory holding a hash's vault file: `<root>/<hex[0..2]>/<hex[2..4]>`.
pub open spec fn shard_dir_spec(root: Seq<char>, hash: Seq<u8>) -> Seq<char> {
    let hex = hex_lower(hash);
    join_path(join_path(root, hex.subrange(0, 2)), hex.subrange(2, 4))
}

/// The vault file of a hash: `<root>/<hex[0..2]>/<hex[2..4]>/<hex>`.
pub open spec fn shard_path_spec(root: Seq<char>, hash: Seq<u8>) -> Seq<char> {
    join_path(shard_dir_spec(root, hash), hex_lower(hash))
}

/// The vault directory under the given home directory.
pub fn vault_root(home: &str) -> (root: String)
    ensures
        root@ == vault_root_spec(home@),
{
    let imprint = join(home, ".imprint");
    join(imprint.as_str(), "store")
}

/// The shard directory of `hash` under the vault root.
pub fn shard_dir(vault_root: &str, hash: &crate::types::Hash) -> (dir: String)
    ensures
        dir@ == shard_dir_spec(vault_root@, hash@),
{
    let hex = hash_to_hex(hash);
    assert(hex@.len() == 64);
    let shard_a = hex.as_str().substring_char(0, 2);
    let shard_b = hex.as_str().substring_char(2, 4);
    let first = join(vault_root, shard_a);
    join(first.as_str(), shard_b)
}

/// Where the vault keeps the master copy of content with hash `hash`.
pub fn shard_path(vault_root: &str, hash: &crate::types::Hash) -> (path: String)
    ensures
        path@ == shard_path_spec(vault_root@, hash@),
{
    let dir = shard_dir(vault_root, hash);
    let hex = hash_to_hex(hash);
    join(dir.as_str(), hex.as_str())
}

/// A joined path ends with the component joined on.
pub proof fn lemma_join_ends_with(base: Seq<char>, component: Seq<char>)
    ensures
        ({
            let p = join_path(base, component);
            &&& component.len() <= p.len()
            &&& p.subrange(p.len() - component.len(), p.len() as int) == component
        }),
{
    let p = join_path(base, component);
    assert(p.subrange(p.len() - component.len(), p.len() as int) =~= component);
}

/// A hex digit determines its nibble.
proof fn lemma_hex_digit_injective(a: u8, b: u8)
    requires
        a < 16,
        b < 16,
        hex_digit(a) == hex_digit(b),
    ensures
        a == b,
{
    assert((hex_digit(a) as u32) == (if a < 10 { 48 + a } else { 87 + a }));
    assert((hex_digit(b) as u32) == (if b < 10 { 48 + b } else { 87 + b }));
}

/// Different contents never share a vault file: the vault path of a hash
/// determines the hash.
pub proof fn law_vault_paths_distinct(root: Seq<char>, h1: Seq<u8>, h2: Seq<u8>)
    requires
        h1.len() == 32,
        h2.len() == 32,
        shard_path_spec(root, h1) == shard_path_spec(root, h2),
    ensures
        h1 == h2,
{
    let x1 = hex_lower(h1);
    let x2 = hex_lower(h2);
    lemma_join_ends_with(shard_dir_spec(root, h1), x1);
    lemma_join_ends_with(shard_dir_spec(root, h2), x2);
    let p = shard_path_spec(root, h1);
    assert(x1 == p.subrange(p.len() - 64, p.len() as int));
    assert(x1 == x2);
    assert forall|i: int| 0 <= i < 32 implies h1[i] == h2[i] by {
        assert(x1[2 * i] == x2[2 * i]);
        assert(x1[2 * i + 1] == x2[2 * i + 1]);
        assert((2 * i) / 2 == i && (2 * i) % 2 == 0);
        assert((2 * i + 1) / 2 == i && (2 * i + 1) % 2 == 1);
        lemma_hex_digit_injective(h1[i] / 16, h2[i] / 16);
        lemma_hex_digit_injective(h1[i] % 16, h2[i] % 16);
    }
    assert(h1 =~= h2);
}

/// Guard over a vault temp file: while armed, the temp file is to be
/// removed when the operation that created it ends.
#[derive(Debug, Clone, PartialEq, Eq)]
pub struct TempCleanup {
    path: String,
    armed: bool,
}

impl View for TempCleanup {
    /// The temp file's path, and whether the guard is armed.
    type V = (Seq<char>, bool);

    closed spec fn view(&self) -> (Seq<char>, bool) {
        (self.path@, self.armed)
    }
}

impl TempCleanup {
    /// A guard over `path`, armed.
    pub fn new(path: String) -> (guard: Self)
        ensures
            guard@ == (path@, true),
    {
        TempCleanup { path, armed: true }
    }

    /// Disarms the guard: the temp file is kept.
    pub fn disarm(&mut self)
        ensures
            final(self)@ == (old(self)@.0, false),
    {
        self.armed = false;
    }

    /// The temp file the guard covers.
    pub fn path(&self) -> (path: &str)
        ensures
            path@ == self@.0,
    {
        self.path.as_str()
    }

    /// Whether the temp file is still to be removed.
    pub fn armed(&self) -> (armed: bool)
        ensures
            armed == self@.1,
    {
        self.armed
    }
}

/// Why moving a file into the vault failed.
#[derive(Debug, Clone, Copy, PartialEq, Eq, Structural)]
pub enum VaultError {
    CreateDir,
    RemoveStaleTemp,
    CopyToTemp,
    OpenTempForSync,
    SyncTemp,
    Finalize,
    RemoveCopiedSource,
}

/// The context in which the failing filesystem operation ran.
pub open spec fn vault_error_context(e: VaultError) -> Seq<char> {
    match e {
        VaultError::CreateDir => "create vault directory"@,
        VaultError::RemoveStaleTemp => "remove existing temp file"@,
        VaultError::CopyToTemp => "copy into vault temp"@,
        VaultError::OpenTempForSync => "open vault temp for sync"@,
        VaultError::SyncTemp => "sync vault temp"@,
        VaultError::Finalize => "finalize vault file"@,
        VaultError::RemoveCopiedSource => "remove original after copy"@,
    }
}

impl VaultError {
    /// The context in which the failing filesystem operation ran.
    pub fn context(&self) -> (msg: &'static str)
        ensures
            msg@ == vault_error_context(*self),
    {
        match self {
            VaultError::CreateDir => "create vault directory",
            VaultError::RemoveStaleTemp => "remove existing temp file",
            VaultError::CopyToTemp => "copy into vault temp",
            VaultError::OpenTempForSync => "open vault temp for sync",
            VaultError::SyncTemp => "sync vault temp",
            VaultError::Finalize => "finalize vault file",
            VaultError::RemoveCopiedSource => "remove original after copy",
        }
    }
}

/// The filesystem operation that moving a file into the vault needs next,
/// or the end of the protocol.
#[derive(Debug, Clone, Copy, PartialEq, Eq, Structural)]
pub enum VaultStage {
    /// Does the vault file already exist?
    CheckDestExists,
    /// Create the shard directory and its parents.
    CreateParentDir,
    /// Does a temp file from an earlier run exist?
    CheckTempExists,
    /// Remove the stale temp file.
    RemoveStaleTemp,
    /// Rename the source to the temp file.
    RenameSourceToTemp,
    /// Copy the source to the temp file.
    CopySourceToTemp,
    /// Open the temp file.
    OpenTempForSync,
    /// Flush the temp file to disk.
    SyncTemp,
    /// Rename the temp file to the vault file.
    RenameTempToDest,
    /// Remove the source, which was copied.
    RemoveSource,
    /// Rename the temp file back to the source: the source was moved into
    /// it and the vault file could not be put in place.
    RestoreSourceFromTemp,
    /// Finished: the content is at the vault file.
    Vaulted,
    /// Finished: an operation failed.
    Failed(VaultError),
}

/// The stage that follows `stage` when its operation answered `ok`
/// (for a check: whether the file exists); `used_copy` tells whether the
/// source was copied rather than renamed.
pub open spec fn vault_next(stage: VaultStage, used_copy: bool, ok: bool) -> VaultStage {
    match stage {
        VaultStage::CheckDestExists => if ok {
            VaultStage::Vaulted
        } else {
            VaultStage::CreateParentDir
        },
        VaultStage::CreateParentDir => if ok {
            VaultStage::CheckTempExists
        } else {
            VaultStage::Failed(VaultError::CreateDir)
        },
        VaultStage::CheckTempExists => if ok {
            VaultStage::RemoveStaleTemp
        } else {
            VaultStage::RenameSourceToTemp
        },
        VaultStage::RemoveStaleTemp => if ok {
            VaultStage::RenameSourceToTemp
        } else {
            VaultStage::Failed(VaultError::RemoveStaleTemp)
        },
        VaultStage::RenameSourceToTemp => if ok {
            VaultStage::RenameTempToDest
        } else {
            VaultStage::CopySourceToTemp
        },
        VaultStage::CopySourceToTemp => if ok {
            VaultStage::OpenTempForSync
        } else {
            VaultStage::Failed(VaultError::CopyToTemp)
        },
        VaultStage::OpenTempForSync => if ok {
            VaultStage::SyncTemp
        } else {
            VaultStage::Failed(VaultError::OpenTempForSync)
        },
        VaultStage::SyncTemp => if ok {
            VaultStage::RenameTempToDest
        } else {
            VaultStage::Failed(VaultError::SyncTemp)
        },
        VaultStage::RenameTempToDest => if !ok {
            if used_copy {
                VaultStage::Failed(VaultError::Finalize)
            } else {
                VaultStage::RestoreSourceFromTemp
            }
        } else if used_copy {
            VaultStage::RemoveSource
        } else {
            VaultStage::Vaulted
        },
        VaultStage::RemoveSource => if ok {
            VaultStage::Vaulted
        } else {
            VaultStage::Failed(VaultError::RemoveCopiedSource)
        },
        VaultStage::RestoreSourceFromTemp => VaultStage::Failed(VaultError::Finalize),
        VaultStage::Vaulted => VaultStage::Vaulted,
        VaultStage::Failed(e) => VaultStage::Failed(e),
    }
}

/// Whether, after the current operation answered `ok`, the temp file holds
/// the only copy of the source's content: from a successful move of the
/// source into it until that content is in the vault file or back at the
/// source.
pub open spec fn moved_next(stage: VaultStage, source_moved: bool, ok: bool) -> bool {
    match stage {
        VaultStage::RenameSourceToTemp => ok,
        VaultStage::RenameTempToDest => source_moved && !ok,
        VaultStage::RestoreSourceFromTemp => source_moved && !ok,
        _ => source_moved,
    }
}

/// A temp guard, as (path, armed), once disarmed.
pub open spec fn disarmed(guard: Option<(Seq<char>, bool)>) -> Option<(Seq<char>, bool)> {
    match guard {
        Some((path, _)) => Some((path, false)),
        None => None,
    }
}

/// Whether a temp guard, as (path, armed), exists and is armed.
pub open spec fn guard_armed(guard: Option<(Seq<char>, bool)>) -> bool {
    match guard {
        Some((_, armed)) => armed,
        None => false,
    }
}

/// The temp guard, as (path, armed), after the current operation answered `ok`: armed just
/// before the source is moved or copied into the temp file; disarmed once
/// the vault file is in place, or when the temp file must be kept because
/// it holds the only copy of the source's content.
pub open spec fn guard_next(
    stage: VaultStage,
    ok: bool,
    guard: Option<(Seq<char>, bool)>,
    temp: Seq<char>,
) -> Option<(Seq<char>, bool)> {
    match stage {
        VaultStage::RenameSourceToTemp => if guard is None {
            Some((temp, true))
        } else {
            guard
        },
        VaultStage::RenameTempToDest => if ok {
            disarmed(guard)
        } else {
            guard
        },
        VaultStage::RestoreSourceFromTemp => if !ok {
            disarmed(guard)
        } else {
            guard
        },
        _ => guard,
    }
}

/// The temp file that a vault file is written through: the vault file's
/// name, which is a hex digest without extension, with extension `imprint_tmp`.
pub open spec fn temp_path_spec(dest: Seq<char>) -> Seq<char> {
    dest + ".imprint_tmp"@
}

/// Moving one file into the vault, one filesystem operation at a time.
pub struct VaultPlacement {
    dest: String,
    parent: String,
    temp: String,
    source: String,
    stage: VaultStage,
    used_copy: bool,
    source_moved: bool,
    cleanup: Option<TempCleanup>,
}

/// Starts moving `source`, whose content hashes to `hash`, into the vault
/// under `vault_root`; the first operation is to check for the vault file.
pub fn ensure_in_vault(vault_root: &str, hash: &crate::types::Hash, source: String) -> (placement:
    VaultPlacement)
    ensures
        placement.dest_spec() == shard_path_spec(vault_root@, hash@),
        placement.parent_spec() == shard_dir_spec(vault_root@, hash@),
        placement.temp_spec() == temp_path_spec(shard_path_spec(vault_root@, hash@)),
        placement.source_spec() == source@,
        placement.stage_spec() == VaultStage::CheckDestExists,
        !placement.used_copy_spec(),
        !placement.source_moved_spec(),
        placement.cleanup_spec() is None,
        placement.inv(),
{
    let parent = shard_dir(vault_root, hash);
    let dest = shard_path(vault_root, hash);
    let suffix = ".imprint_tmp";
    let temp = String::from_str(dest.as_str()).concat(suffix);
    VaultPlacement {
        dest,
        parent,
        temp,
        source,
        stage: VaultStage::CheckDestExists,
        used_copy: false,
        source_moved: false,
        cleanup: None,
    }
}

impl VaultPlacement {
    /// The vault file.
    pub closed spec fn dest_spec(&self) -> Seq<char> {
        self.dest@
    }

    /// The shard directory that holds the vault file.
    pub closed spec fn parent_spec(&self) -> Seq<char> {
        self.parent@
    }

    /// The temp file the vault file is written through.
    pub closed spec fn temp_spec(&self) -> Seq<char> {
        self.temp@
    }

    /// The file whose content goes into the vault.
    pub closed spec fn source_spec(&self) -> Seq<char> {
        self.source@
    }

    /// The operation to perform next.
    pub closed spec fn stage_spec(&self) -> VaultStage {
        self.stage
    }

    /// Whether the source was copied (and must be removed once vaulted).
    pub closed spec fn used_copy_spec(&self) -> bool {
        self.used_copy
    }

    /// Whether the temp file holds the only copy of the source's content.
    pub closed spec fn source_moved_spec(&self) -> bool {
        self.source_moved
    }

    /// The guard over the temp file, as (path, armed), once one may exist.
    pub closed spec fn cleanup_spec(&self) -> Option<(Seq<char>, bool)> {
        match self.cleanup {
            Some(g) => Some(g@),
            None => None,
        }
    }

    /// The vault file.
    pub fn dest(&self) -> (dest: &str)
        ensures
            dest@ == self.dest_spec(),
    {
        self.dest.as_str()
    }

    /// The shard directory that holds the vault file.
    pub fn parent(&self) -> (parent: &str)
        ensures
            parent@ == self.parent_spec(),
    {
        self.parent.as_str()
    }

    /// The temp file the vault file is written through.
    pub fn temp(&self) -> (temp: &str)
        ensures
            temp@ == self.temp_spec(),
    {
        self.temp.as_str()
    }

    /// The file whose content goes into the vault.
    pub fn source(&self) -> (source: &str)
        ensures
            source@ == self.source_spec(),
    {
        self.source.as_str()
    }

    /// The operation to perform next.
    pub fn stage(&self) -> (stage: VaultStage)
        ensures
            stage == self.stage_spec(),
    {
        self.stage
    }

    /// Whether the source was copied.
    pub fn used_copy(&self) -> (used_copy: bool)
        ensures
            used_copy == self.used_copy_spec(),
    {
        self.used_copy
    }

    /// Whether the temp file holds the only copy of the source's content.
    pub fn source_moved(&self) -> (source_moved: bool)
        ensures
            source_moved == self.source_moved_spec(),
    {
        self.source_moved
    }

    /// The guard over the temp file, once one may exist.
    pub fn cleanup(&self) -> (cleanup: &Option<TempCleanup>)
        ensures
            match *cleanup {
                Some(g) => self.cleanup_spec() == Some(g@),
                None => self.cleanup_spec() is None,
            },
    {
        &self.cleanup
    }

    /// Whether the protocol has finished.
    pub open spec fn is_done(&self) -> bool {
        self.stage_spec() is Vaulted || self.stage_spec() is Failed
    }

    /// What every stage keeps: while the temp file holds the only copy of
    /// the source's content, the source was moved (not copied), the guard
    /// over the temp file exists, and the protocol is either about to put
    /// that content in place or has finished with the guard disarmed.
    pub open spec fn inv(&self) -> bool {
        let stage = self.stage_spec();
        &&& (stage == VaultStage::CheckDestExists || stage == VaultStage::CreateParentDir || stage
            == VaultStage::CheckTempExists || stage == VaultStage::RemoveStaleTemp || stage
            == VaultStage::RenameSourceToTemp) ==> !self.used_copy_spec()
            && !self.source_moved_spec()
        &&& self.source_moved_spec() ==> {
            &&& !self.used_copy_spec()
            &&& self.cleanup_spec() is Some
            &&& (stage == VaultStage::RenameTempToDest || stage
                == VaultStage::RestoreSourceFromTemp || (stage is Failed && !guard_armed(
                self.cleanup_spec(),
            )))
        }
    }

    /// Records the answer `ok` of the current operation (for a check:
    /// whether the file exists) and moves to the next stage.
    pub fn advance(&mut self, ok: bool)
        ensures
            final(self).stage_spec() == vault_next(
                old(self).stage_spec(),
                old(self).used_copy_spec(),
                ok,
            ),
            final(self).used_copy_spec() == (old(self).used_copy_spec() || (old(self).stage_spec()
                == VaultStage::RenameSourceToTemp && !ok)),
            final(self).source_moved_spec() == moved_next(
                old(self).stage_spec(),
                old(self).source_moved_spec(),
                ok,
            ),
            final(self).cleanup_spec() == guard_next(
                old(self).stage_spec(),
                ok,
                old(self).cleanup_spec(),
                old(self).temp_spec(),
            ),
            final(self).dest_spec() == old(self).dest_spec(),
            final(self).parent_spec() == old(self).parent_spec(),
            final(self).temp_spec() == old(self).temp_spec(),
            final(self).source_spec() == old(self).source_spec(),
            old(self).inv() ==> final(self).inv(),
    {
        let stage = self.stage;
        if stage == VaultStage::RenameSourceToTemp && self.cleanup.is_none() {
            self.cleanup = Some(TempCleanup::new(self.temp.clone()));
        }
        if stage == VaultStage::RenameSourceToTemp && !ok {
            self.used_copy = true;
        }
        self.source_moved = match stage {
            VaultStage::RenameSourceToTemp => ok,
            VaultStage::RenameTempToDest => self.source_moved && !ok,
            VaultStage::RestoreSourceFromTemp => self.source_moved && !ok,
            _ => self.source_moved,
        };
        let next = match stage {
            VaultStage::CheckDestExists => if ok {
                VaultStage::Vaulted
            } else {
                VaultStage::CreateParentDir
            },
            VaultStage::CreateParentDir => if ok {
                VaultStage::CheckTempExists
            } else {
                VaultStage::Failed(VaultError::CreateDir)
            },
            VaultStage::CheckTempExists => if ok {
                VaultStage::RemoveStaleTemp
            } else {
                VaultStage::RenameSourceToTemp
            },
            VaultStage::RemoveStaleTemp => if ok {
                VaultStage::RenameSourceToTemp
            } else {
                VaultStage::Failed(VaultError::RemoveStaleTemp)
            },
            VaultStage::RenameSourceToTemp => if ok {
                VaultStage::RenameTempToDest
            } else {
                VaultStage::CopySourceToTemp
            },
            VaultStage::CopySourceToTemp => if ok {
                VaultStage::OpenTempForSync
            } else {
                VaultStage::Failed(VaultError::CopyToTemp)
            },
            VaultStage::OpenTempForSync => if ok {
                VaultStage::SyncTemp
            } else {
                VaultStage::Failed(VaultError::OpenTempForSync)
            },
            VaultStage::SyncTemp => if ok {
                VaultStage::RenameTempToDest
            } else {
                VaultStage::Failed(VaultError::SyncTemp)
            },
            VaultStage::RenameTempToDest => if !ok {
                if self.used_copy {
                    VaultStage::Failed(VaultError::Finalize)
                } else {
                    VaultStage::RestoreSourceFromTemp
                }
            } else {
                if let Some(guard) = &mut self.cleanup {
                    guard.disarm();
                }
                if self.used_copy {
                    VaultStage::RemoveSource
                } else {
                    VaultStage::Vaulted
                }
            },
            VaultStage::RemoveSource => if ok {
                VaultStage::Vaulted
            } else {
                VaultStage::Failed(VaultError::RemoveCopiedSource)
            },
            VaultStage::RestoreSourceFromTemp => {
                if !ok {
                    if let Some(guard) = &mut self.cleanup {
                        guard.disarm();
                    }
                }
                VaultStage::Failed(VaultError::Finalize)
            },
            VaultStage::Vaulted => VaultStage::Vaulted,
            VaultStage::Failed(e) => VaultStage::Failed(e),
        };
        self.stage = next;
    }
}

/// How many operations at most remain from a stage of the vault protocol.
pub open spec fn vault_steps_left(stage: VaultStage) -> nat {
    match stage {
        VaultStage::CheckDestExists => 9,
        VaultStage::CreateParentDir => 8,
        VaultStage::CheckTempExists => 7,
        VaultStage::RemoveStaleTemp => 6,
        VaultStage::RenameSourceToTemp => 5,
        VaultStage::CopySourceToTemp => 4,
        VaultStage::OpenTempForSync => 3,
        VaultStage::SyncTemp => 2,
        VaultStage::RenameTempToDest => 1,
        VaultStage::RemoveSource => 0,
        VaultStage::RestoreSourceFromTemp => 0,
        VaultStage::Vaulted => 0,
        VaultStage::Failed(_) => 0,
    }
}

/// The source file is removed only after the vault file has been renamed
/// into place, and only when the source was copied (a moved source is
/// already gone).
pub proof fn law_source_removed_only_after_vault_file_final(
    stage: VaultStage,
    used_copy: bool,
    ok: bool,
)
    ensures
        vault_next(stage, used_copy, ok) == VaultStage::RemoveSource ==> stage
            == VaultStage::RenameTempToDest && ok && used_copy,
{
}

/// The protocol reports success only when the vault file already existed,
/// or the rename of the temp file into place succeeded (and, for a copied
/// source, the source was then removed).
pub proof fn law_vaulted_only_when_vault_file_in_place(stage: VaultStage, used_copy: bool, ok: bool)
    requires
        stage != VaultStage::Vaulted,
    ensures
        vault_next(stage, used_copy, ok) == VaultStage::Vaulted ==> ok && (stage
            == VaultStage::CheckDestExists || (stage == VaultStage::RenameTempToDest && !used_copy)
            || stage == VaultStage::RemoveSource),
{
}

/// The vault file is written only through the temp file: the final rename
/// follows a successful move of the source or a successful flush of a copy.
pub proof fn law_vault_file_written_only_from_complete_temp(
    stage: VaultStage,
    used_copy: bool,
    ok: bool,
)
    ensures
        vault_next(stage, used_copy, ok) == VaultStage::RenameTempToDest ==> ok && (stage
            == VaultStage::RenameSourceToTemp || stage == VaultStage::SyncTemp),
{
}

/// No premature deletion: when the protocol fails, the temp guard is armed
/// only if the temp file is not the only copy of the source's content (the
/// source was copied, never moved, or moved back); a temp file that holds
/// the only copy is kept. A failed final rename after a move leads to moving
/// the content back to the source.
pub proof fn law_failure_never_deletes_only_copy(p: &VaultPlacement, ok: bool)
    requires
        p.inv(),
    ensures
        (p.stage_spec() is Failed && guard_armed(p.cleanup_spec())) ==> !p.source_moved_spec(),
        (p.stage_spec() == VaultStage::RenameTempToDest && p.source_moved_spec() && !ok)
            ==> vault_next(p.stage_spec(), p.used_copy_spec(), ok)
            == VaultStage::RestoreSourceFromTemp,
{
}

/// The protocol terminates: every operation that does not finish it leads
/// to a stage with fewer operations left.
pub proof fn law_vault_protocol_terminates(stage: VaultStage, used_copy: bool, ok: bool)
    requires
        !(stage is Vaulted || stage is Failed),
    ensures
        ({
            let next = vault_next(stage, used_copy, ok);
            (next is Vaulted || next is Failed) || vault_steps_left(next) < vault_steps_left(stage)
        }),
{
}

/// Why removing a vault file failed.
#[derive(Debug, Clone, Copy, PartialEq, Eq, Structural)]
pub enum PruneError {
    RemoveVaultFile,
}

/// The filesystem operation that removing a hash from the vault needs
/// next, or the end of the protocol.
#[derive(Debug, Clone, Copy, PartialEq, Eq, Structural)]
pub enum PruneStage {
    /// Does the vault file exist?
    CheckVaultFile,
    /// Remove the vault file.
    RemoveVaultFile,
    /// Is the shard directory now empty?
    CheckShardDirEmpty,
    /// Remove the shard directory (a failure is ignored).
    RemoveShardDir,
    /// Is the prefix directory above it now empty?
    CheckPrefixDirEmpty,
    /// Remove the prefix directory (a failure is ignored).
    RemovePrefixDir,
    /// Finished.
    Pruned,
    /// Finished: the vault file could not be removed.
    Failed(PruneError),
}

/// The stage that follows `stage` when its operation answered `ok` (for a
/// check: whether the file exists, or whether the directory could be read
/// and is empty).
pub open spec fn prune_next(stage: PruneStage, ok: bool) -> PruneStage {
    match stage {
        PruneStage::CheckVaultFile => if ok {
            PruneStage::RemoveVaultFile
        } else {
            PruneStage::Pruned
        },
        PruneStage::RemoveVaultFile => if ok {
            PruneStage::CheckShardDirEmpty
        } else {
            PruneStage::Failed(PruneError::RemoveVaultFile)
        },
        PruneStage::CheckShardDirEmpty => if ok {
            PruneStage::RemoveShardDir
        } else {
            PruneStage::Pruned
        },
        PruneStage::RemoveShardDir => PruneStage::CheckPrefixDirEmpty,
        PruneStage::CheckPrefixDirEmpty => if ok {
            PruneStage::RemovePrefixDir
        } else {
            PruneStage::Pruned
        },
        PruneStage::RemovePrefixDir => PruneStage::Pruned,
        PruneStage::Pruned => PruneStage::Pruned,
        PruneStage::Failed(e) => PruneStage::Failed(e),
    }
}

/// Removing one hash's master copy from the vault, together with the shard
/// directories that it leaves empty.
pub struct VaultPrune {
    dest: String,
    shard_dir: String,
    prefix_dir: String,
    stage: PruneStage,
}

/// Starts removing the vault file of `hash` under `vault_root`; the first
/// operation is to check that it exists.
pub fn remove_from_vault(vault_root: &str, hash: &crate::types::Hash) -> (prune: VaultPrune)
    ensures
        prune.dest_spec() == shard_path_spec(vault_root@, hash@),
        prune.shard_dir_spec() == shard_dir_spec(vault_root@, hash@),
        prune.prefix_dir_spec() == join_path(vault_root@, hex_lower(hash@).subrange(0, 2)),
        prune.stage_spec() == PruneStage::CheckVaultFile,
{
    let hex = hash_to_hex(hash);
    assert(hex@.len() == 64);
    let shard_a = hex.as_str().substring_char(0, 2);
    VaultPrune {
        dest: shard_path(vault_root, hash),
        shard_dir: shard_dir(vault_root, hash),
        prefix_dir: join(vault_root, shard_a),
        stage: PruneStage::CheckVaultFile,
    }
}

impl VaultPrune {
    /// The vault file.
    pub closed spec fn dest_spec(&self) -> Seq<char> {
        self.dest@
    }

    /// Its shard directory, `<root>/<hex[0..2]>/<hex[2..4]>`.
    pub closed spec fn shard_dir_spec(&self) -> Seq<char> {
        self.shard_dir@
    }

    /// The prefix directory above it, `<root>/<hex[0..2]>`.
    pub closed spec fn prefix_dir_spec(&self) -> Seq<char> {
        self.prefix_dir@
    }

    /// The operation to perform next.
    pub closed spec fn stage_spec(&self) -> PruneStage {
        self.stage
    }

    /// The vault file.
    pub fn dest(&self) -> (dest: &str)
        ensures
            dest@ == self.dest_spec(),
    {
        self.dest.as_str()
    }

    /// The shard directory.
    pub fn shard_dir(&self) -> (dir: &str)
        ensures
            dir@ == self.shard_dir_spec(),
    {
        self.shard_dir.as_str()
    }

    /// The prefix directory.
    pub fn prefix_dir(&self) -> (dir: &str)
        ensures
            dir@ == self.prefix_dir_spec(),
    {
        self.prefix_dir.as_str()
    }

    /// The operation to perform next.
    pub fn stage(&self) -> (stage: PruneStage)
        ensures
            stage == self.stage_spec(),
    {
        self.stage
    }

    /// Records the answer `ok` of the current operation and moves on.
    pub fn advance(&mut self, ok: bool)
        ensures
            final(self).stage_spec() == prune_next(old(self).stage_spec(), ok),
            final(self).dest_spec() == old(self).dest_spec(),
            final(self).shard_dir_spec() == old(self).shard_dir_spec(),
            final(self).prefix_dir_spec() == old(self).prefix_dir_spec(),
    {
        let next = match self.stage {
            PruneStage::CheckVaultFile => if ok {
                PruneStage::RemoveVaultFile
            } else {
                PruneStage::Pruned
            },
            PruneStage::RemoveVaultFile => if ok {
                PruneStage::CheckShardDirEmpty
            } else {
                PruneStage::Failed(PruneError::RemoveVaultFile)
            },
            PruneStage::CheckShardDirEmpty => if ok {
                PruneStage::RemoveShardDir
            } else {
                PruneStage::Pruned
            },
            PruneStage::RemoveShardDir => PruneStage::CheckPrefixDirEmpty,
            PruneStage::CheckPrefixDirEmpty => if ok {
                PruneStage::RemovePrefixDir
            } else {
                PruneStage::Pruned
            },
            PruneStage::RemovePrefixDir => PruneStage::Pruned,
            PruneStage::Pruned => PruneStage::Pruned,
            PruneStage::Failed(e) => PruneStage::Failed(e),
        };
        self.stage = next;
    }
}

/// Directories are removed only when found empty, and only after the vault
/// file itself was removed: the shard directory right after its emptiness
/// check, the prefix directory right after its own.
pub proof fn law_prune_removes_only_empty_directories(stage: PruneStage, ok: bool)
    ensures
        prune_next(stage, ok) == PruneStage::RemoveShardDir ==> stage
            == PruneStage::CheckShardDirEmpty && ok,
        prune_next(stage, ok) == PruneStage::CheckShardDirEmpty ==> stage
            == PruneStage::RemoveVaultFile && ok,
        prune_next(stage, ok) == PruneStage::RemovePrefixDir ==> stage
            == PruneStage::CheckPrefixDirEmpty && ok,
        prune_next(stage, ok) == PruneStage::CheckPrefixDirEmpty ==> stage
            == PruneStage::RemoveShardDir,
{
}

/// Pruning fails only when the vault file cannot be removed: a check that
/// answers no (no vault file, a directory that still holds entries) ends
/// the prune normally, and a directory that cannot be removed is left.
pub proof fn law_prune_fails_only_when_vault_file_stays(stage: PruneStage, ok: bool)
    ensures
        (prune_next(stage, ok) is Failed && !(stage is Failed)) ==> (stage
            == PruneStage::RemoveVaultFile && !ok),
        (!ok && (stage == PruneStage::CheckVaultFile || stage == PruneStage::CheckShardDirEmpty
            || stage == PruneStage::CheckPrefixDirEmpty)) ==> prune_next(stage, ok)
            == PruneStage::Pruned,
        (stage == PruneStage::RemoveShardDir || stage == PruneStage::RemovePrefixDir)
            ==> !(prune_next(stage, ok) is Failed),
{
}

} // verus!
