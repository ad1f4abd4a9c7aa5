//! The install step: moving a fully staged bundle into its destination,
//! with overwrite and best-effort rollback. The decisions are a small saga —
//! at most a backup rename, the move itself, and a compensating restore —
//! driven here step by step, while the caller performs each rename and
//! reports how it went. The laws at the bottom state what the saga does to
//! a model file system: gating without overwrite, success with it, and the
//! rollback when the move fails after a backup.

use vstd::prelude::*;

use crate::paths::{file_name_spec, with_extension, with_extension_spec};
use crate::text::str_eq;

verus! {

/// Errors of the install step. `AppAlreadyExists` is separated out so a
/// caller can offer an explicit overwrite instead of failing hard.
pub enum SaveErr {
    AppAlreadyExists,
    Other(String),
}

impl SaveErr {
    pub fn to_msg(&self, app_dst_path: &str) -> (r: String)
        ensures
            match self {
                SaveErr::AppAlreadyExists => r@ == "App already exists at '"@ + app_dst_path@
                    + "'. Run with [-f|--force] to overwrite."@,
                SaveErr::Other(msg) => r@ == msg@,
            },
    {
        match self {
            SaveErr::AppAlreadyExists => {
                let mut m = String::from_str("App already exists at '");
                m.append(app_dst_path);
                m.append("'. Run with [-f|--force] to overwrite.");
                m
            },
            SaveErr::Other(msg) => msg.clone(),
        }
    }
}

/// How one rename attempt went: done, refused because the target is a
/// non-empty directory, or failed for any other reason (with the reason's
/// text).
pub enum RenameOutcome {
    Done,
    NotEmpty,
    OtherError(String),
}

/// A rename outcome with the failure text abstracted away.
pub enum OutcomeModel {
    Done,
    NotEmpty,
    OtherError,
}

impl RenameOutcome {
    pub open spec fn model(&self) -> OutcomeModel {
        match self {
            RenameOutcome::Done => OutcomeModel::Done,
            RenameOutcome::NotEmpty => OutcomeModel::NotEmpty,
            RenameOutcome::OtherError(_) => OutcomeModel::OtherError,
        }
    }
}

#[derive(Clone, Copy, Debug, PartialEq, Eq, Structural)]
pub enum SagaPhase {
    /// Renaming the existing destination aside.
    Backup,
    /// Moving the staged bundle into place.
    Moving,
    /// Renaming the backup back after a failed move.
    Restore,
    Done,
}

/// What the saga asks its driver to do next: one rename, or nothing more.
pub enum SagaStep {
    Rename { from: String, to: String },
    Finished(Result<(), SaveErr>),
}

/// A step with the strings reduced to their character sequences and the
/// error reduced to its kind.
pub enum StepModel {
    Rename { from: Seq<char>, to: Seq<char> },
    FinishOk,
    FinishErr { already_exists: bool },
}

impl SagaStep {
    pub open spec fn model(&self) -> StepModel {
        match self {
            SagaStep::Rename { from, to } => StepModel::Rename { from: from@, to: to@ },
            SagaStep::Finished(Ok(_)) => StepModel::FinishOk,
            SagaStep::Finished(Err(SaveErr::AppAlreadyExists)) => StepModel::FinishErr {
                already_exists: true,
            },
            SagaStep::Finished(Err(SaveErr::Other(_))) => StepModel::FinishErr {
                already_exists: false,
            },
        }
    }
}

/// The saga's state, over plain character sequences.
pub struct SagaModel {
    pub tmp: Seq<char>,
    pub dst: Seq<char>,
    pub bak: Seq<char>,
    pub phase: SagaPhase,
    pub backup_taken: bool,
    pub pending_already_exists: Option<bool>,
}

/// Where the saga starts, and its first step. With overwrite requested, a
/// destination that exists, and matching bundle file names, the existing
/// destination is first renamed aside to the backup path (the staged
/// bundle's sibling, extension `bak`); otherwise the move is attempted
/// directly.
pub open spec fn begin_model(tmp: Seq<char>, dst: Seq<char>, overwrite: bool, dst_exists: bool) -> (
    SagaModel,
    StepModel,
) {
    let bak = with_extension_spec(tmp, "bak"@);
    if overwrite && dst_exists && file_name_spec(dst) == file_name_spec(tmp) {
        (
            SagaModel {
                tmp,
                dst,
                bak,
                phase: SagaPhase::Backup,
                backup_taken: false,
                pending_already_exists: None,
            },
            StepModel::Rename { from: dst, to: bak },
        )
    } else {
        (
            SagaModel {
                tmp,
                dst,
                bak,
                phase: SagaPhase::Moving,
                backup_taken: false,
                pending_already_exists: None,
            },
            StepModel::Rename { from: tmp, to: dst },
        )
    }
}

/// One transition. The backup's own failure is ignored (best effort); the
/// move's failure is kept — as `AppAlreadyExists` exactly when the target
/// was a non-empty directory — and triggers the restore when a backup was
/// taken; the restore's outcome is ignored and the kept error is reported.
pub open spec fn advance_model(m: SagaModel, oc: OutcomeModel) -> (SagaModel, StepModel)
    recommends
        m.phase != SagaPhase::Done,
{
    match m.phase {
        SagaPhase::Backup => (
            SagaModel { phase: SagaPhase::Moving, backup_taken: oc is Done, ..m },
            StepModel::Rename { from: m.tmp, to: m.dst },
        ),
        SagaPhase::Moving => {
            match oc {
                OutcomeModel::Done => (
                    SagaModel { phase: SagaPhase::Done, ..m },
                    StepModel::FinishOk,
                ),
                OutcomeModel::NotEmpty => {
                    if m.backup_taken {
                        (
                            SagaModel {
                                phase: SagaPhase::Restore,
                                pending_already_exists: Some(true),
                                ..m
                            },
                            StepModel::Rename { from: m.bak, to: m.dst },
                        )
                    } else {
                        (
                            SagaModel { phase: SagaPhase::Done, ..m },
                            StepModel::FinishErr { already_exists: true },
                        )
                    }
                },
                OutcomeModel::OtherError => {
                    if m.backup_taken {
                        (
                            SagaModel {
                                phase: SagaPhase::Restore,
                                pending_already_exists: Some(false),
                                ..m
                            },
                            StepModel::Rename { from: m.bak, to: m.dst },
                        )
                    } else {
                        (
                            SagaModel { phase: SagaPhase::Done, ..m },
                            StepModel::FinishErr { already_exists: false },
                        )
                    }
                },
            }
        },
        SagaPhase::Restore => (
            SagaModel { phase: SagaPhase::Done, pending_already_exists: None, ..m },
            StepModel::FinishErr { already_exists: m.pending_already_exists == Some(true) },
        ),
        SagaPhase::Done => (m, StepModel::FinishErr { already_exists: false }),
    }
}

/// The message kept when the move itself fails for an outside reason.
pub open spec fn move_err_msg(tmp: Seq<char>, dst: Seq<char>, e: Seq<char>) -> Seq<char> {
    "Error moving temporary app '"@ + tmp + "' to out_dir '"@ + dst + "': "@ + e
}

/// The running install saga. `begin` decides the first rename; each
/// `advance` takes the last rename's outcome and yields the next step.
pub struct SaveSaga {
    pub tmp: String,
    pub dst: String,
    pub bak: String,
    pub phase: SagaPhase,
    pub backup_taken: bool,
    pub pending: Option<SaveErr>,
}

impl SaveSaga {
    pub open spec fn model(&self) -> SagaModel {
        SagaModel {
            tmp: self.tmp@,
            dst: self.dst@,
            bak: self.bak@,
            phase: self.phase,
            backup_taken: self.backup_taken,
            pending_already_exists: match self.pending {
                Option::None => None,
                Option::Some(SaveErr::AppAlreadyExists) => Some(true),
                Option::Some(SaveErr::Other(_)) => Some(false),
            },
        }
    }

    pub open spec fn wf(&self) -> bool {
        &&& self.bak@ == with_extension_spec(self.tmp@, "bak"@)
        &&& (self.phase == SagaPhase::Restore ==> self.pending is Some)
    }

    pub open spec fn phase(&self) -> SagaPhase {
        self.phase
    }

    pub fn begin(tmp: String, dst: String, overwrite: bool, dst_exists: bool) -> (r: (
        SaveSaga,
        SagaStep,
    ))
        ensures
            r.0.wf(),
            (r.0.model(), r.1.model()) == begin_model(tmp@, dst@, overwrite, dst_exists),
    {
        let bak = with_extension(tmp.as_str(), "bak");
        let names_eq: bool = match (
            crate::paths::file_name_of(dst.as_str()),
            crate::paths::file_name_of(tmp.as_str()),
        ) {
            (Option::Some(a), Option::Some(b)) => str_eq(a.as_str(), b.as_str()),
            (Option::None, Option::None) => true,
            _ => false,
        };
        if overwrite && dst_exists && names_eq {
            let step = SagaStep::Rename { from: dst.clone(), to: bak.clone() };
            (
                SaveSaga {
                    tmp,
                    dst,
                    bak,
                    phase: SagaPhase::Backup,
                    backup_taken: false,
                    pending: None,
                },
                step,
            )
        } else {
            let step = SagaStep::Rename { from: tmp.clone(), to: dst.clone() };
            (
                SaveSaga {
                    tmp,
                    dst,
                    bak,
                    phase: SagaPhase::Moving,
                    backup_taken: false,
                    pending: None,
                },
                step,
            )
        }
    }

    pub fn advance(&mut self, outcome: RenameOutcome) -> (r: SagaStep)
        requires
            old(self).wf(),
            old(self).phase() != SagaPhase::Done,
        ensures
            final(self).wf(),
            (final(self).model(), r.model()) == advance_model(old(self).model(), outcome.model()),
            // The move's outside failure keeps its exact message.
            old(self).phase() == SagaPhase::Moving && !old(self).model().backup_taken ==> (match (
                outcome,
                r,
            ) {
                (
                    RenameOutcome::OtherError(e),
                    SagaStep::Finished(Err(SaveErr::Other(m))),
                ) => m@ == move_err_msg(old(self).model().tmp, old(self).model().dst, e@),
                (RenameOutcome::OtherError(e), _) => false,
                _ => true,
            }),
            old(self).phase() == SagaPhase::Moving && old(self).model().backup_taken ==> (match (
                outcome,
                final(self).pending_msg(),
            ) {
                (RenameOutcome::OtherError(e), Some(m)) => m == move_err_msg(
                    old(self).model().tmp,
                    old(self).model().dst,
                    e@,
                ),
                (RenameOutcome::OtherError(e), _) => false,
                _ => true,
            }),
            // The restore reports exactly the kept error.
            old(self).phase() == SagaPhase::Restore ==> (match old(self).pending_msg() {
                Some(m) => (r matches SagaStep::Finished(Err(SaveErr::Other(m2))) && m2@ == m),
                None => true,
            }),
    {
        match self.phase {
            SagaPhase::Backup => {
                self.backup_taken = match outcome {
                    RenameOutcome::Done => true,
                    _ => false,
                };
                self.phase = SagaPhase::Moving;
                SagaStep::Rename { from: self.tmp.clone(), to: self.dst.clone() }
            },
            SagaPhase::Moving => {
                match outcome {
                    RenameOutcome::Done => {
                        self.phase = SagaPhase::Done;
                        SagaStep::Finished(Ok(()))
                    },
                    RenameOutcome::NotEmpty => {
                        if self.backup_taken {
                            self.phase = SagaPhase::Restore;
                            self.pending = Some(SaveErr::AppAlreadyExists);
                            SagaStep::Rename { from: self.bak.clone(), to: self.dst.clone() }
                        } else {
                            self.phase = SagaPhase::Done;
                            SagaStep::Finished(Err(SaveErr::AppAlreadyExists))
                        }
                    },
                    RenameOutcome::OtherError(e) => {
                        let mut m = String::from_str("Error moving temporary app '");
                        m.append(self.tmp.as_str());
                        m.append("' to out_dir '");
                        m.append(self.dst.as_str());
                        m.append("': ");
                        m.append(e.as_str());
                        if self.backup_taken {
                            self.phase = SagaPhase::Restore;
                            self.pending = Some(SaveErr::Other(m));
                            SagaStep::Rename { from: self.bak.clone(), to: self.dst.clone() }
                        } else {
                            self.phase = SagaPhase::Done;
                            SagaStep::Finished(Err(SaveErr::Other(m)))
                        }
                    },
                }
            },
            SagaPhase::Restore => {
                self.phase = SagaPhase::Done;
                match self.pending.take() {
                    Option::Some(err) => SagaStep::Finished(Err(err)),
                    Option::None => {
                        proof {
                            assert(false);
                        }
                        SagaStep::Finished(Ok(()))
                    },
                }
            },
            SagaPhase::Done => {
                proof {
                    assert(false);
                }
                SagaStep::Finished(Ok(()))
            },
        }
    }

    /// The kept error's message, where one is kept and carries text.
    pub open spec fn pending_msg(&self) -> Option<Seq<char>> {
        match self.pending {
            Option::Some(SaveErr::Other(m)) => Some(m@),
            _ => None,
        }
    }
}

/// A model file system for the laws below: whole bundle trees, each as one
/// opaque content at its path.
pub open spec fn apply_rename(
    fs: Map<Seq<char>, nat>,
    from: Seq<char>,
    to: Seq<char>,
    oc: OutcomeModel,
) -> Map<Seq<char>, nat> {
    if oc is Done {
        fs.remove(from).insert(to, fs[from])
    } else {
        fs
    }
}

/// What any real rename outcome satisfies on the model: a rename that
/// succeeded had its source present and its target free, and a "directory
/// not empty" refusal means the target is occupied. Nothing forbids an
/// attempt to fail for reasons outside the model.
pub open spec fn outcome_consistent(
    fs: Map<Seq<char>, nat>,
    from: Seq<char>,
    to: Seq<char>,
    oc: OutcomeModel,
) -> bool {
    match oc {
        OutcomeModel::Done => fs.contains_key(from) && !fs.contains_key(to),
        OutcomeModel::NotEmpty => fs.contains_key(to),
        OutcomeModel::OtherError => true,
    }
}

/// Overwrite gating: without overwrite, saving onto an occupied destination
/// cannot succeed; the file system's "not empty" refusal is reported as
/// `AppAlreadyExists`, and the model file system — the existing bundle
/// included — stays exactly as it was.
pub proof fn lemma_overwrite_gating(
    fs: Map<Seq<char>, nat>,
    tmp: Seq<char>,
    dst: Seq<char>,
    dst_exists: bool,
)
    requires
        fs.contains_key(dst),
    ensures
        ({
            let (m0, s0) = begin_model(tmp, dst, false, dst_exists);
            &&& s0 == StepModel::Rename { from: tmp, to: dst }
            &&& !outcome_consistent(fs, tmp, dst, OutcomeModel::Done)
            &&& advance_model(m0, OutcomeModel::NotEmpty).1 == StepModel::FinishErr {
                already_exists: true,
            }
            &&& apply_rename(fs, tmp, dst, OutcomeModel::NotEmpty) == fs
        }),
{
}

/// Overwrite success: with overwrite, matching bundle names, the destination
/// occupied and the backup name free, the model file system allows both
/// renames; when they succeed the saga reports success and the destination
/// holds exactly the staged content.
pub proof fn lemma_overwrite_success(fs: Map<Seq<char>, nat>, tmp: Seq<char>, dst: Seq<char>)
    requires
        fs.contains_key(dst),
        fs.contains_key(tmp),
        file_name_spec(dst) == file_name_spec(tmp),
        !fs.contains_key(with_extension_spec(tmp, "bak"@)),
        tmp != dst,
        tmp != with_extension_spec(tmp, "bak"@),
        dst != with_extension_spec(tmp, "bak"@),
    ensures
        ({
            let bak = with_extension_spec(tmp, "bak"@);
            let (m0, s0) = begin_model(tmp, dst, true, true);
            let fs1 = apply_rename(fs, dst, bak, OutcomeModel::Done);
            let (m1, s1) = advance_model(m0, OutcomeModel::Done);
            let fs2 = apply_rename(fs1, tmp, dst, OutcomeModel::Done);
            let (m2, s2) = advance_model(m1, OutcomeModel::Done);
            &&& s0 == StepModel::Rename { from: dst, to: bak }
            &&& outcome_consistent(fs, dst, bak, OutcomeModel::Done)
            &&& s1 == StepModel::Rename { from: tmp, to: dst }
            &&& outcome_consistent(fs1, tmp, dst, OutcomeModel::Done)
            &&& s2 == StepModel::FinishOk
            &&& fs2.contains_key(dst) && fs2[dst] == fs[tmp]
            &&& !fs2.contains_key(tmp)
        }),
{
}

/// Compensating rollback: after a successful backup, a move that fails
/// triggers the restore rename at once; the model file system allows the
/// restore, after it the destination again holds its pre-overwrite content,
/// and the error reported is the move's own, not the restore's.
pub proof fn lemma_compensating_rollback(fs: Map<Seq<char>, nat>, tmp: Seq<char>, dst: Seq<char>)
    requires
        fs.contains_key(dst),
        fs.contains_key(tmp),
        file_name_spec(dst) == file_name_spec(tmp),
        !fs.contains_key(with_extension_spec(tmp, "bak"@)),
        tmp != dst,
        tmp != with_extension_spec(tmp, "bak"@),
        dst != with_extension_spec(tmp, "bak"@),
    ensures
        ({
            let bak = with_extension_spec(tmp, "bak"@);
            let (m0, s0) = begin_model(tmp, dst, true, true);
            let fs1 = apply_rename(fs, dst, bak, OutcomeModel::Done);
            let (m1, s1) = advance_model(m0, OutcomeModel::Done);
            let fs2 = apply_rename(fs1, tmp, dst, OutcomeModel::OtherError);
            let (m2, s2) = advance_model(m1, OutcomeModel::OtherError);
            let fs3 = apply_rename(fs2, bak, dst, OutcomeModel::Done);
            let (m3, s3) = advance_model(m2, OutcomeModel::Done);
            &&& s1 == StepModel::Rename { from: tmp, to: dst }
            &&& s2 == StepModel::Rename { from: bak, to: dst }
            &&& outcome_consistent(fs2, bak, dst, OutcomeModel::Done)
            &&& s3 == StepModel::FinishErr { already_exists: false }
            &&& fs3.contains_key(dst) && fs3[dst] == fs[dst]
            &&& !fs3.contains_key(bak)
        }),
{
}

} // verus!
