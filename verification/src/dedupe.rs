//! The decisions of deduplicating one group of identical files: placing the
//! master copy in the vault, verifying and linking each file, and what the
//! database records for the group.

use vstd::prelude::*;
use crate::state::DbOp;

verus! {

/// How a file was linked to its vault copy.
#[derive(Debug, Clone, Copy, PartialEq, Eq, Structural)]
pub enum LinkType {
    /// A copy-on-write clone: own inode, own metadata.
    Reflink,
    /// A hard link: the vault file's inode.
    HardLink,
}

/// The result of comparing a file byte for byte with its vault copy.
#[derive(Debug, Clone, Copy, PartialEq, Eq, Structural)]
pub enum VerifyOutcome {
    /// Identical.
    Match,
    /// Different: a hash collision or bit rot.
    Mismatch,
    /// The comparison could not be done.
    Failed,
}

/// The result of replacing a file by a link to its vault copy.
#[derive(Debug, Clone, Copy, PartialEq, Eq, Structural)]
pub enum LinkOutcome {
    /// Replaced by a reflink.
    Reflinked,
    /// Replaced by a hard link; the file's inode is the one given.
    HardLinked(u64),
    /// Left as it was.
    Unchanged,
    /// The filesystem cannot reflink, and hard links were not allowed.
    ReflinkUnsupported,
    /// Any other failure; it ends the run.
    Failed,
}

/// The operation a group needs next, or its end. File indices count from
/// the master, index 0.
#[derive(Debug, Clone, Copy, PartialEq, Eq, Structural)]
pub enum GroupStage {
    /// Move the master into the vault (dry run: only work out where).
    PlaceMaster,
    /// Does the master file still exist where it was?
    CheckMasterExists,
    /// Compare file `i` with the vault copy.
    VerifyFile(usize),
    /// Replace file `i` by a link to the vault copy.
    LinkFile(usize),
    /// Put the master back from the vault: it could not be linked. The
    /// run ends afterwards when `abort`; otherwise only the group is given
    /// up.
    RestoreMaster { abort: bool },
    /// Dry run: report what would be done to file `i`.
    ReportDryRun(usize),
    /// Every file was handled.
    Done,
    /// The group was given up; nothing is recorded for it.
    Abandoned,
    /// A failure that ends the whole run.
    Aborted,
}

/// What the operation of the current stage gave.
#[derive(Debug, Clone, Copy, PartialEq, Eq, Structural)]
pub enum GroupEvent {
    /// `PlaceMaster`: whether it succeeded.
    Placed(bool),
    /// `CheckMasterExists`: whether the master exists.
    MasterExists(bool),
    /// `VerifyFile`: the comparison.
    Verified(VerifyOutcome),
    /// `LinkFile`: the linking.
    Linked(LinkOutcome),
    /// `RestoreMaster` or `ReportDryRun`: done.
    Handled,
}

/// What to tell the user about the step just taken.
#[derive(Debug, Clone, Copy, PartialEq, Eq, Structural)]
pub enum Note {
    Nothing,
    /// Dry run in paranoid mode: verification is skipped, the master is not
    /// in the vault.
    VerificationSkipped,
    /// The file was linked; `verified` when it was compared first.
    Linked { link: LinkType, verified: bool },
    /// The file differs from its vault copy.
    Collision,
    /// The file could not be compared.
    VerifyFailed,
    /// The file was skipped: no reflinks here.
    ReflinkUnsupported,
}

/// Whether `event` answers the operation of `stage`.
pub open spec fn event_fits(stage: GroupStage, event: GroupEvent) -> bool {
    match stage {
        GroupStage::PlaceMaster => event is Placed,
        GroupStage::CheckMasterExists => event is MasterExists,
        GroupStage::VerifyFile(_) => event is Verified,
        GroupStage::LinkFile(_) => event is Linked,
        GroupStage::RestoreMaster { .. } => event is Handled,
        GroupStage::ReportDryRun(_) => event is Handled,
        _ => false,
    }
}

/// Whether a stage ends the group.
pub open spec fn is_final(stage: GroupStage) -> bool {
    stage is Done || stage is Abandoned || stage is Aborted
}

/// The stage for file `i` of `n` once the previous one is handled.
pub open spec fn file_stage(n: usize, paranoid: bool, dry_run: bool, i: int) -> GroupStage {
    if i >= n {
        GroupStage::Done
    } else if dry_run {
        GroupStage::ReportDryRun(i as usize)
    } else if paranoid {
        GroupStage::VerifyFile(i as usize)
    } else {
        GroupStage::LinkFile(i as usize)
    }
}

/// One step of a group of `n` files: the next stage, whether the file now
/// to be linked was verified, and what to tell the user.
pub open spec fn group_next(
    n: usize,
    paranoid: bool,
    dry_run: bool,
    stage: GroupStage,
    verified: bool,
    event: GroupEvent,
) -> (GroupStage, bool, Note) {
    match (stage, event) {
        (GroupStage::PlaceMaster, GroupEvent::Placed(ok)) => if !ok {
            (GroupStage::Aborted, false, Note::Nothing)
        } else if dry_run {
            (
                GroupStage::ReportDryRun(0),
                false,
                if paranoid {
                    Note::VerificationSkipped
                } else {
                    Note::Nothing
                },
            )
        } else if paranoid {
            (GroupStage::CheckMasterExists, false, Note::Nothing)
        } else {
            (GroupStage::LinkFile(0), false, Note::Nothing)
        },
        (GroupStage::CheckMasterExists, GroupEvent::MasterExists(exists)) => if exists {
            (GroupStage::VerifyFile(0), false, Note::Nothing)
        } else {
            (GroupStage::LinkFile(0), false, Note::Nothing)
        },
        (GroupStage::VerifyFile(i), GroupEvent::Verified(outcome)) => match outcome {
            VerifyOutcome::Match => (GroupStage::LinkFile(i), true, Note::Nothing),
            _ => {
                let note = if outcome == VerifyOutcome::Mismatch {
                    Note::Collision
                } else {
                    Note::VerifyFailed
                };
                if i == 0 {
                    (GroupStage::Abandoned, false, note)
                } else {
                    (file_stage(n, paranoid, dry_run, i + 1), false, note)
                }
            },
        },
        (GroupStage::LinkFile(i), GroupEvent::Linked(outcome)) => match outcome {
            LinkOutcome::Reflinked => (
                file_stage(n, paranoid, dry_run, i + 1),
                false,
                Note::Linked { link: LinkType::Reflink, verified: paranoid && verified },
            ),
            LinkOutcome::HardLinked(_) => (
                file_stage(n, paranoid, dry_run, i + 1),
                false,
                Note::Linked { link: LinkType::HardLink, verified: paranoid && verified },
            ),
            LinkOutcome::Unchanged => (file_stage(n, paranoid, dry_run, i + 1), false, Note::Nothing),
            LinkOutcome::ReflinkUnsupported => if i == 0 {
                (GroupStage::RestoreMaster { abort: false }, false, Note::Nothing)
            } else {
                (file_stage(n, paranoid, dry_run, i + 1), false, Note::ReflinkUnsupported)
            },
            LinkOutcome::Failed => if i == 0 {
                (GroupStage::RestoreMaster { abort: true }, false, Note::Nothing)
            } else {
                (GroupStage::Aborted, false, Note::Nothing)
            },
        },
        (GroupStage::RestoreMaster { abort }, GroupEvent::Handled) => if abort {
            (GroupStage::Aborted, false, Note::Nothing)
        } else {
            (GroupStage::Abandoned, false, Note::ReflinkUnsupported)
        },
        (GroupStage::ReportDryRun(i), GroupEvent::Handled) => (
            file_stage(n, paranoid, dry_run, i + 1),
            false,
            Note::Nothing,
        ),
        _ => (stage, verified, Note::Nothing),
    }
}

/// The operation a step records: hard-linked files are marked vaulted.
pub open spec fn recorded_op(stage: GroupStage, event: GroupEvent) -> Seq<DbOp> {
    match (stage, event) {
        (GroupStage::LinkFile(_), GroupEvent::Linked(LinkOutcome::HardLinked(inode))) => seq![
            DbOp::MarkInodeVaulted(inode),
        ],
        _ => Seq::empty(),
    }
}

/// Deduplication of one group of files with the same content hash; file 0
/// is the master, whose copy goes into the vault.
pub struct GroupRun {
    hash: crate::types::Hash,
    n: usize,
    paranoid: bool,
    dry_run: bool,
    stage: GroupStage,
    verified: bool,
    ops: Vec<DbOp>,
}

impl GroupRun {
    /// The group's content hash.
    pub closed spec fn hash_spec(&self) -> crate::types::Hash {
        self.hash
    }

    /// How many files the group holds.
    pub closed spec fn n_spec(&self) -> usize {
        self.n
    }

    /// Whether files are compared with the vault copy before linking.
    pub closed spec fn paranoid_spec(&self) -> bool {
        self.paranoid
    }

    /// Whether the run only reports what it would do.
    pub closed spec fn dry_run_spec(&self) -> bool {
        self.dry_run
    }

    /// The group's stage.
    pub closed spec fn stage_spec(&self) -> GroupStage {
        self.stage
    }

    /// Whether the file about to be linked was verified.
    pub closed spec fn verified_spec(&self) -> bool {
        self.verified
    }

    /// The operations recorded so far.
    pub closed spec fn ops_spec(&self) -> Seq<DbOp> {
        self.ops@
    }

    /// Stages that a dry run never reaches, and file indices in range.
    pub closed spec fn wf(&self) -> bool {
        &&& self.n >= 2
        &&& match self.stage {
            GroupStage::VerifyFile(i) => i < self.n && self.paranoid && !self.dry_run,
            GroupStage::LinkFile(i) => i < self.n && !self.dry_run,
            GroupStage::ReportDryRun(i) => i < self.n && self.dry_run,
            GroupStage::CheckMasterExists => self.paranoid && !self.dry_run,
            GroupStage::RestoreMaster { .. } => !self.dry_run,
            _ => true,
        }
        &&& self.dry_run ==> self.ops@.len() == 0
    }

    /// Starts a group of `n` files, or gives `None` for fewer than two:
    /// a file without duplicates is left alone.
    pub fn start(hash: crate::types::Hash, n: usize, paranoid: bool, dry_run: bool) -> (run:
        Option<GroupRun>)
        ensures
            match run {
                Some(r) => {
                    &&& n >= 2
                    &&& r.wf()
                    &&& r.hash_spec() == hash && r.n_spec() == n && r.paranoid_spec() == paranoid
                        && r.dry_run_spec() == dry_run
                    &&& r.stage_spec() == GroupStage::PlaceMaster
                    &&& r.ops_spec() == Seq::<DbOp>::empty()
                },
                None => n < 2,
            },
    {
        if n < 2 {
            None
        } else {
            Some(
                GroupRun {
                    hash,
                    n,
                    paranoid,
                    dry_run,
                    stage: GroupStage::PlaceMaster,
                    verified: false,
                    ops: Vec::new(),
                },
            )
        }
    }

    /// The operation needed next.
    pub fn stage(&self) -> (s: GroupStage)
        ensures
            s == self.stage_spec(),
    {
        self.stage
    }

    /// Records what the current operation gave and moves on.
    pub fn advance(&mut self, event: GroupEvent) -> (note: Note)
        requires
            old(self).wf(),
            event_fits(old(self).stage_spec(), event),
        ensures
            final(self).wf(),
            final(self).hash_spec() == old(self).hash_spec(),
            final(self).n_spec() == old(self).n_spec(),
            final(self).paranoid_spec() == old(self).paranoid_spec(),
            final(self).dry_run_spec() == old(self).dry_run_spec(),
            ({
                let (stage, verified, expected) = group_next(
                    old(self).n_spec(),
                    old(self).paranoid_spec(),
                    old(self).dry_run_spec(),
                    old(self).stage_spec(),
                    old(self).verified_spec(),
                    event,
                );
                &&& final(self).stage_spec() == stage
                &&& final(self).verified_spec() == verified
                &&& note == expected
            }),
            final(self).ops_spec() == old(self).ops_spec() + recorded_op(old(self).stage_spec(), event),
    {
        let n = self.n;
        let paranoid = self.paranoid;
        let dry_run = self.dry_run;
        let ghost ops_before = self.ops@;
        let (stage, verified, note) = match (self.stage, event) {
            (GroupStage::PlaceMaster, GroupEvent::Placed(ok)) => if !ok {
                (GroupStage::Aborted, false, Note::Nothing)
            } else if dry_run {
                (
                    GroupStage::ReportDryRun(0),
                    false,
                    if paranoid {
                        Note::VerificationSkipped
                    } else {
                        Note::Nothing
                    },
                )
            } else if paranoid {
                (GroupStage::CheckMasterExists, false, Note::Nothing)
            } else {
                (GroupStage::LinkFile(0), false, Note::Nothing)
            },
            (GroupStage::CheckMasterExists, GroupEvent::MasterExists(exists)) => if exists {
                (GroupStage::VerifyFile(0), false, Note::Nothing)
            } else {
                (GroupStage::LinkFile(0), false, Note::Nothing)
            },
            (GroupStage::VerifyFile(i), GroupEvent::Verified(outcome)) => match outcome {
                VerifyOutcome::Match => (GroupStage::LinkFile(i), true, Note::Nothing),
                _ => {
                    let note = if outcome == VerifyOutcome::Mismatch {
                        Note::Collision
                    } else {
                        Note::VerifyFailed
                    };
                    if i == 0 {
                        (GroupStage::Abandoned, false, note)
                    } else {
                        (next_file_stage(n, paranoid, dry_run, i), false, note)
                    }
                },
            },
            (GroupStage::LinkFile(i), GroupEvent::Linked(outcome)) => match outcome {
                LinkOutcome::Reflinked => (
                    next_file_stage(n, paranoid, dry_run, i),
                    false,
                    Note::Linked { link: LinkType::Reflink, verified: paranoid && self.verified },
                ),
                LinkOutcome::HardLinked(inode) => {
                    self.ops.push(DbOp::MarkInodeVaulted(inode));
                    (
                        next_file_stage(n, paranoid, dry_run, i),
                        false,
                        Note::Linked { link: LinkType::HardLink, verified: paranoid && self.verified },
                    )
                },
                LinkOutcome::Unchanged => (next_file_stage(n, paranoid, dry_run, i), false, Note::Nothing),
                LinkOutcome::ReflinkUnsupported => if i == 0 {
                    (GroupStage::RestoreMaster { abort: false }, false, Note::Nothing)
                } else {
                    (next_file_stage(n, paranoid, dry_run, i), false, Note::ReflinkUnsupported)
                },
                LinkOutcome::Failed => if i == 0 {
                    (GroupStage::RestoreMaster { abort: true }, false, Note::Nothing)
                } else {
                    (GroupStage::Aborted, false, Note::Nothing)
                },
            },
            (GroupStage::RestoreMaster { abort }, GroupEvent::Handled) => if abort {
                (GroupStage::Aborted, false, Note::Nothing)
            } else {
                (GroupStage::Abandoned, false, Note::ReflinkUnsupported)
            },
            (GroupStage::ReportDryRun(i), GroupEvent::Handled) => (
                next_file_stage(n, paranoid, dry_run, i),
                false,
                Note::Nothing,
            ),
            _ => (self.stage, self.verified, Note::Nothing),
        };
        assert(self.ops@ =~= ops_before + recorded_op(old(self).stage_spec(), event));
        self.stage = stage;
        self.verified = verified;
        note
    }

    /// Ends the group. A completed group that was not a dry run records its
    /// marks and then its reference count, the number of files in it; a dry
    /// run, or a group given up, records nothing.
    pub fn finish(self) -> (ops: Option<Vec<DbOp>>)
        requires
            self.wf(),
        ensures
            match ops {
                Some(o) => {
                    &&& self.stage_spec() == GroupStage::Done
                    &&& !self.dry_run_spec()
                    &&& o@ == self.ops_spec().push(
                        DbOp::SetCasRefcount(self.hash_spec(), self.n_spec() as u64),
                    )
                },
                None => self.stage_spec() != GroupStage::Done || self.dry_run_spec(),
            },
    {
        if self.stage == GroupStage::Done && !self.dry_run {
            let mut ops = self.ops;
            ops.push(DbOp::SetCasRefcount(self.hash, self.n as u64));
            Some(ops)
        } else {
            None
        }
    }
}

/// The stage after file `i` of `n` is handled.
fn next_file_stage(n: usize, paranoid: bool, dry_run: bool, i: usize) -> (s: GroupStage)
    requires
        i < n,
    ensures
        s == file_stage(n, paranoid, dry_run, i + 1),
{
    let j = i + 1;
    if j >= n {
        GroupStage::Done
    } else if dry_run {
        GroupStage::ReportDryRun(j)
    } else if paranoid {
        GroupStage::VerifyFile(j)
    } else {
        GroupStage::LinkFile(j)
    }
}

/// Dry runs change nothing: a dry run never verifies, links or restores
/// files, and records no operation (so `finish` gives it none).
pub proof fn law_dry_run_changes_nothing(run: &GroupRun)
    requires
        run.wf(),
        run.dry_run_spec(),
    ensures
        !(run.stage_spec() is CheckMasterExists || run.stage_spec() is VerifyFile
            || run.stage_spec() is LinkFile || run.stage_spec() is RestoreMaster),
        run.ops_spec().len() == 0,
{
}

/// Verification first: in paranoid mode a file is linked only right after
/// it compared equal to the vault copy; the one exception is a master that
/// is no longer where it was (it was moved into the vault).
pub proof fn law_paranoid_links_only_verified_files(
    n: usize,
    stage: GroupStage,
    verified: bool,
    event: GroupEvent,
    i: usize,
)
    requires
        event_fits(stage, event),
    ensures
        group_next(n, true, false, stage, verified, event).0 == GroupStage::LinkFile(i) ==> (stage
            == GroupStage::VerifyFile(i) && event == GroupEvent::Verified(VerifyOutcome::Match)
            && group_next(n, true, false, stage, verified, event).1) || (i == 0 && stage
            == GroupStage::CheckMasterExists && event == GroupEvent::MasterExists(false)),
{
}

/// Link safety: no file is linked before the master was placed in the
/// vault, and nothing leads back to placing it.
pub proof fn law_links_only_after_master_placed(
    n: usize,
    paranoid: bool,
    dry_run: bool,
    stage: GroupStage,
    verified: bool,
    event: GroupEvent,
)
    requires
        event_fits(stage, event),
    ensures
        ({
            let next = group_next(n, paranoid, dry_run, stage, verified, event).0;
            &&& (next is LinkFile && stage == GroupStage::PlaceMaster) ==> event
                == GroupEvent::Placed(true)
            &&& next != GroupStage::PlaceMaster
        }),
{
}

/// A master that fails verification, or cannot be reflinked, makes the
/// group be given up (after putting the master back from the vault).
pub proof fn law_master_failure_abandons_group(n: usize, paranoid: bool, verified: bool)
    ensures
        group_next(
            n,
            paranoid,
            false,
            GroupStage::VerifyFile(0),
            verified,
            GroupEvent::Verified(VerifyOutcome::Mismatch),
        ).0 == GroupStage::Abandoned,
        group_next(
            n,
            paranoid,
            false,
            GroupStage::VerifyFile(0),
            verified,
            GroupEvent::Verified(VerifyOutcome::Failed),
        ).0 == GroupStage::Abandoned,
        group_next(
            n,
            paranoid,
            false,
            GroupStage::LinkFile(0),
            verified,
            GroupEvent::Linked(LinkOutcome::ReflinkUnsupported),
        ).0 == (GroupStage::RestoreMaster { abort: false }),
        group_next(
            n,
            paranoid,
            false,
            GroupStage::RestoreMaster { abort: false },
            verified,
            GroupEvent::Handled,
        ).0 == GroupStage::Abandoned,
{
}

/// No master is stranded in the vault: once placed, the master is either
/// linked back in place (the group goes on to the next file) or, when
/// linking it fails for any reason, put back from the vault before the group
/// is given up or the run ends.
pub proof fn law_master_never_stranded(
    n: usize,
    paranoid: bool,
    verified: bool,
    outcome: LinkOutcome,
)
    requires
        n >= 2,
    ensures
        ({
            let next = group_next(
                n,
                paranoid,
                false,
                GroupStage::LinkFile(0),
                verified,
                GroupEvent::Linked(outcome),
            ).0;
            match outcome {
                LinkOutcome::Reflinked => next == file_stage(n, paranoid, false, 1),
                LinkOutcome::HardLinked(_) => next == file_stage(n, paranoid, false, 1),
                LinkOutcome::Unchanged => next == file_stage(n, paranoid, false, 1),
                LinkOutcome::ReflinkUnsupported => next == (GroupStage::RestoreMaster {
                    abort: false,
                }),
                LinkOutcome::Failed => next == (GroupStage::RestoreMaster { abort: true }),
            }
        }),
        !is_final(file_stage(n, paranoid, false, 1)),
        // putting the master back is the only way to the end from here
        forall|abort: bool|
            #![trigger group_next(n, paranoid, false, GroupStage::RestoreMaster { abort }, verified, GroupEvent::Handled)]
            group_next(
                n,
                paranoid,
                false,
                GroupStage::RestoreMaster { abort },
                verified,
                GroupEvent::Handled,
            ).0 == if abort {
                GroupStage::Aborted
            } else {
                GroupStage::Abandoned
            },
{
}

/// A link is reported as verified only for a file that was compared equal
/// to its vault copy in the step just before: only in paranoid mode, only
/// after a comparison of that same file came out equal. Whatever came
/// before, a step that does not compare files leaves no file counted as
/// verified.
pub proof fn law_verified_only_after_match(
    n: usize,
    paranoid: bool,
    dry_run: bool,
    s0: GroupStage,
    v0: bool,
    e0: GroupEvent,
    e1: GroupEvent,
)
    requires
        event_fits(s0, e0),
        event_fits(group_next(n, paranoid, dry_run, s0, v0, e0).0, e1),
    ensures
        ({
            let (s1, v1, note0) = group_next(n, paranoid, dry_run, s0, v0, e0);
            let note1 = group_next(n, paranoid, dry_run, s1, v1, e1).2;
            &&& v1 ==> (e0 == GroupEvent::Verified(VerifyOutcome::Match) && (s0 matches GroupStage::VerifyFile(i)
                && s1 == GroupStage::LinkFile(i)))
            &&& (note1 is Linked && note1->verified) ==> (paranoid && e0
                == GroupEvent::Verified(VerifyOutcome::Match) && (s0 matches GroupStage::VerifyFile(i)
                && s1 == GroupStage::LinkFile(i)))
            &&& !(note0 is Linked && note0->verified && !v0)
        }),
{
}

/// A link note tells whether the linked file was verified: it says so
/// exactly in paranoid mode for a file whose comparison came out equal,
/// and only a step that links a file gives one.
pub proof fn law_link_note_reports_verification(
    n: usize,
    paranoid: bool,
    dry_run: bool,
    stage: GroupStage,
    verified: bool,
    event: GroupEvent,
)
    requires
        event_fits(stage, event),
    ensures
        ({
            let note = group_next(n, paranoid, dry_run, stage, verified, event).2;
            &&& note is Linked ==> (stage is LinkFile && (event == GroupEvent::Linked(
                LinkOutcome::Reflinked) || event matches GroupEvent::Linked(
                LinkOutcome::HardLinked(_))))
            &&& note is Linked ==> note->verified == (paranoid && verified)
            &&& note == (Note::Linked { link: LinkType::Reflink, verified: paranoid && verified })
                <== (stage is LinkFile && event == GroupEvent::Linked(LinkOutcome::Reflinked))
        }),
{
}

/// A master that was moved into the vault (it is no longer where it was)
/// is linked back without a comparison, and its link is never reported as
/// verified.
pub proof fn law_moved_master_link_is_unverified(
    n: usize,
    verified: bool,
    outcome: LinkOutcome,
)
    ensures
        ({
            let (s1, v1, _) = group_next(
                n,
                true,
                false,
                GroupStage::CheckMasterExists,
                verified,
                GroupEvent::MasterExists(false),
            );
            let note = group_next(n, true, false, s1, v1, GroupEvent::Linked(outcome)).2;
            &&& s1 == GroupStage::LinkFile(0)
            &&& !v1
            &&& !(note is Linked && note->verified)
        }),
{
}

/// A file other than the master that differs from its vault copy, cannot
/// be compared, or cannot be reflinked is skipped with a note, and the
/// group goes on with the next file (or is done after the last); only an
/// unexpected linking failure ends the run.
pub proof fn law_non_master_problems_skip_only_that_file(
    n: usize,
    paranoid: bool,
    verified: bool,
    i: usize,
)
    requires
        1 <= i < n,
    ensures
        ({
            let next = if i + 1 >= n {
                GroupStage::Done
            } else if paranoid {
                GroupStage::VerifyFile((i + 1) as usize)
            } else {
                GroupStage::LinkFile((i + 1) as usize)
            };
            &&& group_next(
                n,
                paranoid,
                false,
                GroupStage::VerifyFile(i),
                verified,
                GroupEvent::Verified(VerifyOutcome::Mismatch),
            ) == (next, false, Note::Collision)
            &&& group_next(
                n,
                paranoid,
                false,
                GroupStage::VerifyFile(i),
                verified,
                GroupEvent::Verified(VerifyOutcome::Failed),
            ) == (next, false, Note::VerifyFailed)
            &&& group_next(
                n,
                paranoid,
                false,
                GroupStage::LinkFile(i),
                verified,
                GroupEvent::Linked(LinkOutcome::ReflinkUnsupported),
            ) == (next, false, Note::ReflinkUnsupported)
            &&& group_next(
                n,
                paranoid,
                false,
                GroupStage::LinkFile(i),
                verified,
                GroupEvent::Linked(LinkOutcome::Unchanged),
            ) == (next, false, Note::Nothing)
            &&& group_next(
                n,
                paranoid,
                false,
                GroupStage::LinkFile(i),
                verified,
                GroupEvent::Linked(LinkOutcome::Failed),
            ).0 == GroupStage::Aborted
        }),
{
}

/// How many operations at most remain in a group of `n` files.
pub open spec fn group_steps_left(n: usize, stage: GroupStage) -> nat {
    match stage {
        GroupStage::PlaceMaster => (3 * n + 3) as nat,
        GroupStage::CheckMasterExists => (3 * n + 2) as nat,
        GroupStage::VerifyFile(i) => (3 * (n - i) + 1) as nat,
        GroupStage::LinkFile(i) => (3 * (n - i)) as nat,
        GroupStage::ReportDryRun(i) => (3 * (n - i)) as nat,
        GroupStage::RestoreMaster { .. } => 1,
        _ => 0,
    }
}

/// A group terminates: each step that does not end it leads to a stage with
/// fewer operations left.
pub proof fn law_group_terminates(
    n: usize,
    paranoid: bool,
    dry_run: bool,
    stage: GroupStage,
    verified: bool,
    event: GroupEvent,
)
    requires
        n >= 1,
        event_fits(stage, event),
        match stage {
            GroupStage::VerifyFile(i) => i < n,
            GroupStage::LinkFile(i) => i < n,
            GroupStage::ReportDryRun(i) => i < n,
            _ => true,
        },
    ensures
        ({
            let next = group_next(n, paranoid, dry_run, stage, verified, event).0;
            is_final(next) || group_steps_left(n, next) < group_steps_left(n, stage)
        }),
{
}

/// How a file is to be linked to its vault copy.
#[derive(Debug, Clone, Copy, PartialEq, Eq, Structural)]
pub enum LinkMethod {
    /// A copy-on-write clone.
    Reflink,
    /// A hard link.
    HardLink,
    /// Neither: the file is left as it is and reported.
    Refuse,
}

/// The link to make: a reflink where the filesystem can make one; a hard
/// link only where it cannot and hard links were allowed.
pub fn choose_link(reflink_available: bool, allow_hardlinks: bool) -> (method: LinkMethod)
    ensures
        method == (if reflink_available {
            LinkMethod::Reflink
        } else if allow_hardlinks {
            LinkMethod::HardLink
        } else {
            LinkMethod::Refuse
        }),
        method == LinkMethod::HardLink ==> allow_hardlinks,
{
    if reflink_available {
        LinkMethod::Reflink
    } else if allow_hardlinks {
        LinkMethod::HardLink
    } else {
        LinkMethod::Refuse
    }
}

/// Whether the long explanation of missing reflink support is still to be
/// shown: it is shown once per run.
pub struct ReflinkWarning {
    shown: bool,
}

impl ReflinkWarning {
    /// Whether the explanation was shown.
    pub closed spec fn shown_spec(&self) -> bool {
        self.shown
    }

    /// Not shown yet.
    pub fn new() -> (w: Self)
        ensures
            !w.shown_spec(),
    {
        ReflinkWarning { shown: false }
    }

    /// Whether the explanation was shown.
    pub fn shown(&self) -> (shown: bool)
        ensures
            shown == self.shown_spec(),
    {
        self.shown
    }

    /// Whether to show the explanation now; afterwards it counts as shown.
    pub fn take(&mut self) -> (show: bool)
        ensures
            show == !old(self).shown_spec(),
            final(self).shown_spec(),
    {
        let show = !self.shown;
        self.shown = true;
        show
    }
}

} // verus!
