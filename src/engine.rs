//! The backup engine's protocols: recording a new archive, and restoring one
//! with a safety snapshot taken before anything live is removed.
//!
//! Restoring is a state machine. Its driver performs each action that
//! `next_action` names (checking a file, taking the snapshot, removing a
//! folder, extracting) and reports the outcome with `on_event`.
use vstd::prelude::*;
use crate::clock::{archive_file_name, archive_name_text, created_at_text, LocalTime};
use crate::folders::{same_texts, texts};
use crate::ledger::{
    copy_strings, find_backup, first_with_id, has_id, unique_ids, BackupError, BackupInfo, BackupKind,
};
use crate::storage::{join_path, joined};

verus! {

/// The file name and full path of an archive made at `now` under `backup_dir`.
pub fn archive_location(backup_dir: &str, now: &LocalTime) -> (r: (String, String))
    requires
        now.wf(),
    ensures
        r.0@ == archive_name_text(*now),
        r.1@ == joined(backup_dir@, archive_name_text(*now)),
{
    let name = archive_file_name(now);
    let path = join_path(backup_dir, name.as_str());
    (name, path)
}

/// Record a newly written archive: build its record from the id, the time it
/// was made, its measured size, its path, its kind and its folders, add the
/// record at the end of the ledger, and return it. The id must be new to the
/// ledger, so that ids stay unique.
pub fn record_new_backup(
    ledger: &mut Vec<BackupInfo>,
    id: String,
    now: &LocalTime,
    size_bytes: u64,
    path: String,
    backup_type: BackupKind,
    included_folders: Vec<String>,
) -> (r: BackupInfo)
    requires
        now.wf(),
        !has_id(old(ledger)@, id@),
    ensures
        final(ledger)@.len() == old(ledger)@.len() + 1,
        unique_ids(old(ledger)@) ==> unique_ids(final(ledger)@),
        final(ledger)@.drop_last() == old(ledger)@,
        final(ledger)@.last()@ == r@,
        r.id@ == id@,
        r.name@ == archive_name_text(*now),
        r.created_at@ == created_at_text(*now),
        r.size_bytes == size_bytes,
        r.path@ == path@,
        r.backup_type == backup_type,
        r.included_folders@ == included_folders@,
{
    let record = BackupInfo {
        id,
        name: archive_file_name(now),
        created_at: crate::clock::created_at_string(now),
        size_bytes,
        path,
        backup_type,
        included_folders,
    };
    let r = record.duplicate();
    ledger.push(record);
    assert(ledger@.drop_last() =~= old(ledger)@);
    proof {
        let s = ledger@;
        assert forall|i: int, j: int|
            #![trigger s[i], s[j]]
            unique_ids(old(ledger)@) && 0 <= i < j < s.len() implies s[i].id@ != s[j].id@ by {
            assert(s[i] == old(ledger)@[i]);
            if j < s.len() - 1 {
                assert(s[j] == old(ledger)@[j]);
            }
        }
    }
    r
}

/// Where a restore stands.
#[derive(Clone, Copy, Debug, PartialEq, Eq, Structural)]
pub enum RestorePhase {
    /// The target's archive file is to be checked.
    Validating,
    /// The safety snapshot of the live folders is to be taken.
    SnapshotBefore,
    /// The target's folders are being removed from the live root.
    Purging,
    /// The target's archive is to be extracted into the live root.
    Extracting,
    Done,
    Failed,
}

/// What the driver of a restore does next.
#[derive(Debug)]
pub enum RestoreAction {
    /// Check that the archive file at this path exists and can be read.
    CheckArchive(String),
    /// Create a pre-restore archive of the live root with these folders: the
    /// caller's selection, which may differ from the target's.
    TakeSnapshot(Vec<String>),
    /// Remove this top-level folder of the live root, with its contents, if it exists.
    RemoveFolder(String),
    /// Extract the archive at this path into the live root.
    Extract(String),
    /// The restore is complete; this is the pre-restore record to hand back.
    Finish(BackupInfo),
    /// The restore stopped with this error.
    Abort(BackupError),
}

/// What the driver reports after an action.
#[derive(Debug)]
pub enum RestoreEvent {
    /// The archive file was checked: it exists, or not.
    ArchiveChecked(bool),
    /// The pre-restore archive was made and recorded.
    SnapshotTaken(BackupInfo),
    /// The folder named by the last `RemoveFolder` is gone.
    FolderRemoved,
    /// The archive was extracted.
    Extracted,
    /// The last action failed.
    StepFailed(BackupError),
}

/// A restore in progress.
#[derive(Debug)]
pub struct RestoreSession {
    pub phase: RestorePhase,
    /// The record of the archive being restored, once found.
    pub target: Option<BackupInfo>,
    /// The folders the caller chose for the safety snapshot.
    pub folders: Vec<String>,
    /// The pre-restore record, once taken.
    pub snapshot: Option<BackupInfo>,
    /// How many of the target's folders have been removed.
    pub purged: usize,
    /// Why the restore failed, once it has.
    pub error: Option<BackupError>,
}

/// Is `s` a snapshot that a restore with the caller's `folders` accepts: a
/// pre-restore archive of exactly those folders?
pub open spec fn fits_snapshot(s: BackupInfo, folders: Seq<String>) -> bool {
    s.backup_type == BackupKind::PreRestore && texts(s.included_folders@) == texts(folders)
}

/// Does a session in `phase` act on the event `ev`? Others leave it as it is.
pub open spec fn expects(phase: RestorePhase, ev: RestoreEvent) -> bool {
    match ev {
        RestoreEvent::StepFailed(_) => phase != RestorePhase::Done && phase != RestorePhase::Failed,
        RestoreEvent::ArchiveChecked(_) => phase == RestorePhase::Validating,
        RestoreEvent::SnapshotTaken(_) => phase == RestorePhase::SnapshotBefore,
        RestoreEvent::FolderRemoved => phase == RestorePhase::Purging,
        RestoreEvent::Extracted => phase == RestorePhase::Extracting,
    }
}

impl RestoreSession {
    /// The session's fields agree with its phase. Nothing live is removed
    /// before the snapshot exists: from `Purging` on, a pre-restore snapshot
    /// of the caller's folders is held.
    pub open spec fn wf(&self) -> bool {
        &&& (self.phase == RestorePhase::Failed <==> self.error is Some)
        &&& self.phase != RestorePhase::Failed ==> self.target is Some
        &&& self.snapshot is Some ==> fits_snapshot(self.snapshot->0, self.folders@)
        &&& (self.phase == RestorePhase::Purging || self.phase == RestorePhase::Extracting
            || self.phase == RestorePhase::Done) ==> self.snapshot is Some
        &&& (self.phase == RestorePhase::Validating || self.phase == RestorePhase::SnapshotBefore)
            ==> self.snapshot is None && self.purged == 0
        &&& self.phase == RestorePhase::Purging ==> self.target is Some && self.purged
            < self.target->0.included_folders@.len()
        &&& (self.phase == RestorePhase::Extracting || self.phase == RestorePhase::Done)
            ==> self.target is Some && self.purged == self.target->0.included_folders@.len()
    }

    /// Start restoring the archive with the id `backup_id`, with a safety
    /// snapshot of the caller's `folders`: fails with `NotFound` when the
    /// ledger has no such record, else goes on to check the first such
    /// record's archive file.
    pub fn start(ledger: &Vec<BackupInfo>, backup_id: &str, folders: Vec<String>) -> (r: RestoreSession)
        ensures
            r.wf(),
            r.folders@ == folders@,
            r.snapshot is None,
            r.purged == 0,
            !has_id(ledger@, backup_id@) ==> r.phase == RestorePhase::Failed && r.error
                == Some(BackupError::NotFound),
            has_id(ledger@, backup_id@) ==> r.phase == RestorePhase::Validating && exists|i: int|
                first_with_id(ledger@, backup_id@, i) && r.target is Some && r.target->0@
                == ledger@[i]@,
    {
        match find_backup(ledger, backup_id) {
            Some(i) => RestoreSession {
                phase: RestorePhase::Validating,
                target: Some(ledger[i].duplicate()),
                folders,
                snapshot: None,
                purged: 0,
                error: None,
            },
            None => RestoreSession {
                phase: RestorePhase::Failed,
                target: None,
                folders,
                snapshot: None,
                purged: 0,
                error: Some(BackupError::NotFound),
            },
        }
    }

    /// The action that the current phase calls for.
    pub fn next_action(&self) -> (r: RestoreAction)
        requires
            self.wf(),
        ensures
            self.phase == RestorePhase::Validating ==> r is CheckArchive
                && r->CheckArchive_0@ == self.target->0.path@,
            self.phase == RestorePhase::SnapshotBefore ==> r is TakeSnapshot
                && r->TakeSnapshot_0@ == self.folders@,
            self.phase == RestorePhase::Purging ==> r is RemoveFolder
                && r->RemoveFolder_0@ == self.target->0.included_folders@[self.purged as int]@,
            self.phase == RestorePhase::Extracting ==> r is Extract
                && r->Extract_0@ == self.target->0.path@,
            self.phase == RestorePhase::Done ==> r is Finish
                && r->Finish_0@ == self.snapshot->0@,
            self.phase == RestorePhase::Failed ==> r is Abort && self.error
                == Some(r->Abort_0),
            r is Finish ==> fits_snapshot(r->Finish_0, self.folders@),
            r is RemoveFolder ==> self.snapshot is Some && fits_snapshot(
                self.snapshot->0,
                self.folders@,
            ),
    {
        match self.phase {
            RestorePhase::Validating => {
                let t = self.target.as_ref().unwrap();
                RestoreAction::CheckArchive(t.path.clone())
            },
            RestorePhase::SnapshotBefore => RestoreAction::TakeSnapshot(copy_strings(&self.folders)),
            RestorePhase::Purging => {
                let t = self.target.as_ref().unwrap();
                RestoreAction::RemoveFolder(t.included_folders[self.purged].clone())
            },
            RestorePhase::Extracting => {
                let t = self.target.as_ref().unwrap();
                RestoreAction::Extract(t.path.clone())
            },
            RestorePhase::Done => {
                let s = self.snapshot.as_ref().unwrap();
                RestoreAction::Finish(s.duplicate())
            },
            RestorePhase::Failed => {
                let e = self.error.as_ref().unwrap();
                RestoreAction::Abort(e.duplicate())
            },
        }
    }

    /// Move on after an outcome. A missing archive fails with
    /// `ArchiveMissing`; a failed step fails with its error; a snapshot that
    /// is not a pre-restore archive of the caller's folders fails the restore
    /// before anything is removed. An event that the phase does not expect
    /// leaves the session as it was.
    pub fn on_event(&mut self, ev: RestoreEvent)
        requires
            old(self).wf(),
        ensures
            final(self).wf(),
            final(self).target == old(self).target,
            final(self).folders == old(self).folders,
            !expects(old(self).phase, ev) ==> *final(self) == *old(self),
            expects(old(self).phase, ev) && ev is StepFailed ==> ({
                &&& final(self).phase == RestorePhase::Failed
                &&& final(self).error == Some(ev->StepFailed_0)
                &&& final(self).snapshot == old(self).snapshot
                &&& final(self).purged == old(self).purged
            }),
            expects(old(self).phase, ev) && ev is ArchiveChecked ==> ({
                &&& final(self).snapshot == old(self).snapshot
                &&& final(self).purged == old(self).purged
                &&& if ev->ArchiveChecked_0 {
                    final(self).phase == RestorePhase::SnapshotBefore && final(self).error is None
                } else {
                    final(self).phase == RestorePhase::Failed && final(self).error == Some(
                        BackupError::ArchiveMissing,
                    )
                }
            }),
            expects(old(self).phase, ev) && ev is SnapshotTaken ==> (if fits_snapshot(
                ev->SnapshotTaken_0,
                old(self).folders@,
            ) {
                &&& final(self).snapshot == Some(ev->SnapshotTaken_0)
                &&& final(self).purged == 0
                &&& final(self).error is None
                &&& final(self).phase == if old(self).target->0.included_folders@.len() > 0 {
                    RestorePhase::Purging
                } else {
                    RestorePhase::Extracting
                }
            } else {
                &&& final(self).phase == RestorePhase::Failed
                &&& final(self).snapshot is None
                &&& final(self).purged == 0
                &&& final(self).error matches Some(BackupError::Io(_))
            }),
            expects(old(self).phase, ev) && ev is FolderRemoved ==> ({
                &&& final(self).purged == old(self).purged + 1
                &&& final(self).snapshot == old(self).snapshot
                &&& final(self).error is None
                &&& final(self).phase == if old(self).purged + 1 < old(self).target->0.included_folders@.len() {
                    RestorePhase::Purging
                } else {
                    RestorePhase::Extracting
                }
            }),
            expects(old(self).phase, ev) && ev is Extracted ==> ({
                &&& final(self).phase == RestorePhase::Done
                &&& final(self).snapshot == old(self).snapshot
                &&& final(self).purged == old(self).purged
                &&& final(self).error is None
            }),
    {
        match self.phase {
            RestorePhase::Done | RestorePhase::Failed => {},
            _ => match ev {
                RestoreEvent::StepFailed(e) => {
                    self.phase = RestorePhase::Failed;
                    self.error = Some(e);
                },
                RestoreEvent::ArchiveChecked(ok) => {
                    if self.phase == RestorePhase::Validating {
                        if ok {
                            self.phase = RestorePhase::SnapshotBefore;
                        } else {
                            self.phase = RestorePhase::Failed;
                            self.error = Some(BackupError::ArchiveMissing);
                        }
                    }
                },
                RestoreEvent::SnapshotTaken(s) => {
                    if self.phase == RestorePhase::SnapshotBefore {
                        if s.backup_type == BackupKind::PreRestore && same_texts(
                            &s.included_folders,
                            &self.folders,
                        ) {
                            let n = self.target.as_ref().unwrap().included_folders.len();
                            self.snapshot = Some(s);
                            self.phase = if n > 0 {
                                RestorePhase::Purging
                            } else {
                                RestorePhase::Extracting
                            };
                        } else {
                            self.phase = RestorePhase::Failed;
                            self.error = Some(
                                BackupError::Io(
                                    "snapshot is not a pre-restore archive of the chosen folders".to_owned(),
                                ),
                            );
                        }
                    }
                },
                RestoreEvent::FolderRemoved => {
                    if self.phase == RestorePhase::Purging {
                        let n = self.target.as_ref().unwrap().included_folders.len();
                        self.purged = self.purged + 1;
                        if self.purged == n {
                            self.phase = RestorePhase::Extracting;
                        }
                    }
                },
                RestoreEvent::Extracted => {
                    if self.phase == RestorePhase::Extracting {
                        self.phase = RestorePhase::Done;
                    }
                },
            },
        }
    }
}

} // verus!
