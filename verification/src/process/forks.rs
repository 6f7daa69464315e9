//! What recovery may do with the target branches that an attempt forked.

use vstd::prelude::*;

use crate::classify::{ClassifiedTable, TableClassification};
use crate::error::{conflict, internal, OmniError, OmniErrorModel};
use crate::history::EffectOwnership;
use crate::rollback::{fork_version, first_touch_fork_version, recorded_branch, recorded_branch_of};
use crate::shape::defect::named_branch;
use crate::shape::validate::{exact, has_exact_protocol};
use crate::sidecar::{
    BranchIdentifier, BranchIdentifierModel, RecoverySidecar, RecoverySidecarModel, SidecarKind,
    SidecarTablePin, SidecarTablePinModel,
};
use crate::text::{cat2, cat3, cat7, decimal, decimal_text, same_text};
use crate::value::{opt_view, views, Same};

verus! {

/// A branch of a table.
#[derive(Debug, PartialEq, Eq)]
pub struct BranchContents {
    /// Version of the parent that the branch was forked at.
    pub parent_version: u64,
    /// Identity of the branch, which a branch of the same name made later does not
    /// share.
    pub identifier: BranchIdentifier,
    /// Newest version of the branch, once read.
    pub head_version: Option<u64>,
}

/// What a [`BranchContents`] stands for.
pub struct BranchContentsModel {
    pub parent_version: u64,
    pub identifier: BranchIdentifierModel,
    pub head_version: Option<u64>,
}

impl View for BranchContents {
    type V = BranchContentsModel;

    open spec fn view(&self) -> BranchContentsModel {
        BranchContentsModel {
            parent_version: self.parent_version,
            identifier: self.identifier@,
            head_version: self.head_version,
        }
    }
}

/// What the branches of a table show of a target branch.
#[derive(Debug, PartialEq, Eq)]
pub struct BranchListing {
    /// A branch whose path lies below the target branch's, if there is one.
    pub path_child: Option<String>,
    /// The target branch, if it is there.
    pub target: Option<BranchContents>,
}

/// What recovery does with a forked target branch.
#[derive(Debug, PartialEq, Eq)]
pub enum ForkStep {
    /// Leave it: another branch lives below its path.
    Defer(String),
    /// It is not listed. Remove what is left of it.
    ReclaimTree,
    /// Read its newest version, and ask again.
    ReadHead,
    /// Delete it.
    DeleteBranch,
    /// Leave it.
    Keep,
    /// Leave it and report why.
    Refuse(OmniError),
}

/// What a [`ForkStep`] stands for.
pub enum ForkStepModel {
    Defer(Seq<char>),
    ReclaimTree,
    ReadHead,
    DeleteBranch,
    Keep,
    Refuse(OmniErrorModel),
}

impl View for ForkStep {
    type V = ForkStepModel;

    open spec fn view(&self) -> ForkStepModel {
        match *self {
            ForkStep::Defer(child) => ForkStepModel::Defer(child@),
            ForkStep::ReclaimTree => ForkStepModel::ReclaimTree,
            ForkStep::ReadHead => ForkStepModel::ReadHead,
            ForkStep::DeleteBranch => ForkStepModel::DeleteBranch,
            ForkStep::Keep => ForkStepModel::Keep,
            ForkStep::Refuse(error) => ForkStepModel::Refuse(error@),
        }
    }
}

/// A refusal with `message`.
pub fn refuse_fork(message: &str) -> (step: ForkStep)
    ensures
        step@ == ForkStepModel::Refuse(internal(message@)),
{
    ForkStep::Refuse(OmniError::manifest_internal(message))
}

/// Whether a pin claims a place: a table path, and one branch of it where a branch
/// is given.
pub open spec fn pin_claims(
    pin: SidecarTablePinModel,
    path: Seq<char>,
    branch: Option<Seq<char>>,
) -> bool {
    pin.table_path == path && (branch is Some ==> pin.table_branch == branch)
}

/// Whether a sidecar of another operation claims a place.
pub open spec fn rival(
    candidate: RecoverySidecarModel,
    operation_id: Seq<char>,
    path: Seq<char>,
    branch: Option<Seq<char>>,
) -> bool {
    candidate.operation_id != operation_id && exists|j: int|
        0 <= j < candidate.tables.len() && pin_claims(#[trigger] candidate.tables[j], path, branch)
}

/// Whether some other pending operation claims a place.
pub open spec fn contested(
    pending: Seq<RecoverySidecarModel>,
    operation_id: Seq<char>,
    path: Seq<char>,
    branch: Option<Seq<char>>,
) -> bool {
    exists|i: int| 0 <= i < pending.len() && rival(#[trigger] pending[i], operation_id, path, branch)
}

/// Whether a sidecar of another operation claims a place.
fn is_rival(
    candidate: &RecoverySidecar,
    operation_id: &String,
    path: &String,
    branch: Option<&String>,
) -> (answer: bool)
    ensures
        answer == rival(candidate@, operation_id@, path@, opt_view(branch)),
{
    if candidate.operation_id == *operation_id {
        return false;
    }
    let pins: &Vec<SidecarTablePin> = &candidate.tables;
    let mut j: usize = 0;
    while j < pins.len()
        invariant
            j <= pins.len(),
            *pins == candidate.tables,
            candidate.operation_id@ != operation_id@,
            forall|k: int|
                0 <= k < j ==> !pin_claims(#[trigger] candidate@.tables[k], path@, opt_view(branch)),
        decreases pins.len() - j,
    {
        assert(candidate@.tables[j as int] == pins@[j as int]@);
        let same_place: bool = match branch {
            Some(wanted) => match &pins[j].table_branch {
                Some(name) => *name == *wanted,
                None => false,
            },
            None => true,
        };
        if pins[j].table_path == *path && same_place {
            assert(pin_claims(candidate@.tables[j as int], path@, opt_view(branch)));
            return true;
        }
        j += 1;
    }
    false
}

/// Whether some other pending operation claims a place.
pub fn is_contested(
    pending: &Vec<RecoverySidecar>,
    operation_id: &String,
    path: &String,
    branch: Option<&String>,
) -> (answer: bool)
    ensures
        answer == contested(views(pending@), operation_id@, path@, opt_view(branch)),
{
    let ghost models = views(pending@);
    let mut i: usize = 0;
    while i < pending.len()
        invariant
            i <= pending.len(),
            models == views(pending@),
            forall|k: int|
                0 <= k < i ==> !rival(#[trigger] models[k], operation_id@, path@, opt_view(branch)),
        decreases pending.len() - i,
    {
        assert(models[i as int] == pending@[i as int]@);
        if is_rival(&pending[i], operation_id, path, branch) {
            assert(rival(models[i as int], operation_id@, path@, opt_view(branch)));
            return true;
        }
        i += 1;
    }
    false
}

/// Whether the forks that an attempt left untouched are discarded at all.
pub open spec fn keeps_no_forks(sidecar: RecoverySidecarModel) -> bool {
    exact(sidecar) || sidecar.writer_kind == SidecarKind::EnsureIndices
}

/// Whether the forks that an attempt left untouched are discarded at all. Other
/// pending operations matter only then.
pub fn discards_forks(sidecar: &RecoverySidecar) -> (answer: bool)
    ensures
        answer == keeps_no_forks(sidecar@),
{
    has_exact_protocol(sidecar) || sidecar.writer_kind == SidecarKind::EnsureIndices
}

/// The forked target branch of a table that the attempt never wrote to and that
/// nobody else claims, if there is one.
pub open spec fn untouched_fork(
    sidecar: RecoverySidecarModel,
    pin: SidecarTablePinModel,
    state: ClassifiedTable,
    pending: Seq<RecoverySidecarModel>,
) -> Option<Seq<char>> {
    if !keeps_no_forks(sidecar) {
        None
    } else if !state.unpublished_fork || state.effect_ownership != EffectOwnership::Absent {
        None
    } else if sidecar.writer_kind == SidecarKind::EnsureIndices && state.classification
        != TableClassification::NoMovement {
        None
    } else if named_branch(pin.table_branch) is Some && contested(
        pending,
        sidecar.operation_id,
        pin.table_path,
        pin.table_branch,
    ) {
        None
    } else {
        named_branch(pin.table_branch)
    }
}

/// The forked target branch of a table that the attempt never wrote to and that
/// nobody else claims, if there is one. The branch is left alone while another
/// pending operation claims it: the last claimant removes it.
pub fn fork_to_discard<'a>(
    sidecar: &RecoverySidecar,
    pin: &'a SidecarTablePin,
    state: &ClassifiedTable,
    pending: &Vec<RecoverySidecar>,
) -> (branch: Option<&'a String>)
    ensures
        opt_view(branch) == untouched_fork(sidecar@, pin@, *state, views(pending@)),
{
    if !discards_forks(sidecar) {
        return None;
    }
    if !state.unpublished_fork || state.effect_ownership != EffectOwnership::Absent {
        return None;
    }
    if sidecar.writer_kind == SidecarKind::EnsureIndices && state.classification
        != TableClassification::NoMovement {
        return None;
    }
    match &pin.table_branch {
        Some(branch) => {
            if same_text(branch.as_str(), "main") || is_contested(
                pending,
                &sidecar.operation_id,
                &pin.table_path,
                Some(branch),
            ) {
                None
            } else {
                Some(branch)
            }
        },
        None => None,
    }
}

/// How messages name a fork.
pub open spec fn fork_text(path: Seq<char>, branch: Seq<char>) -> Seq<char> {
    path + ":"@ + branch
}

/// The message that a fork cannot be discarded.
pub open spec fn fork_kept(
    writer: Seq<char>,
    operation_id: Seq<char>,
    fork: Seq<char>,
    reason: Seq<char>,
) -> Seq<char> {
    writer + " recovery sidecar '"@ + operation_id + "' cannot discard unpublished fork '"@ + fork
        + "': "@ + reason
}

/// The message that a fork cannot be discarded.
fn fork_kept_text(writer: &str, operation_id: &str, fork: &str, reason: &str) -> (text: String)
    ensures
        text@ == fork_kept(writer@, operation_id@, fork@, reason@),
{
    cat7(
        writer,
        " recovery sidecar '",
        operation_id,
        "' cannot discard unpublished fork '",
        fork,
        "': ",
        reason,
    )
}

/// What to do with an untouched fork: delete it where it is exactly the branch that
/// the attempt made, still at its fork point.
pub open spec fn discard_step(
    sidecar: RecoverySidecarModel,
    pin: SidecarTablePinModel,
    branch: Seq<char>,
    path_child: Option<Seq<char>>,
    target: Option<BranchContentsModel>,
) -> ForkStepModel {
    let fork = fork_text(pin.table_path, branch);
    let id = sidecar.operation_id;
    let version = fork_version(sidecar, pin);
    let expected = recorded_branch(sidecar, pin.identity);
    match (path_child, target) {
        (Some(child), _) => ForkStepModel::Defer(child),
        (None, None) => ForkStepModel::ReclaimTree,
        (None, Some(found)) => if found.parent_version != version {
            ForkStepModel::Refuse(
                internal(
                    fork_kept(
                        "OCC"@,
                        id,
                        fork,
                        "parent version is "@ + decimal(found.parent_version as nat)
                            + ", expected exact fork point "@ + decimal(version as nat),
                    ),
                ),
            )
        } else if expected is Some && expected != Some(found.identifier) {
            ForkStepModel::Refuse(
                internal(
                    fork_kept(
                        "BranchMerge"@,
                        id,
                        fork,
                        "live target ref identity differs from the confirmed effect"@,
                    ),
                ),
            )
        } else {
            match found.head_version {
                None => ForkStepModel::ReadHead,
                Some(head) => if head != version {
                    ForkStepModel::Refuse(
                        internal(
                            fork_kept(
                                "OCC"@,
                                id,
                                fork,
                                "live HEAD is "@ + decimal(head as nat)
                                    + ", expected untouched version "@ + decimal(version as nat),
                            ),
                        ),
                    )
                } else {
                    ForkStepModel::DeleteBranch
                },
            }
        },
    }
}

/// Decides what to do with an untouched fork.
pub fn discard_fork(
    sidecar: &RecoverySidecar,
    pin: &SidecarTablePin,
    branch: &str,
    listing: &BranchListing,
) -> (step: ForkStep)
    ensures
        step@ == discard_step(
            sidecar@,
            pin@,
            branch@,
            opt_view(listing.path_child),
            opt_view(listing.target),
        ),
{
    if let Some(child) = &listing.path_child {
        return ForkStep::Defer(child.clone());
    }
    let found: &BranchContents = match &listing.target {
        Some(found) => found,
        None => {
            return ForkStep::ReclaimTree;
        },
    };
    let fork: String = cat3(pin.table_path.as_str(), ":", branch);
    let version: u64 = first_touch_fork_version(sidecar, pin);
    let version_digits: String = decimal_text(version);
    if found.parent_version != version {
        let parent: String = decimal_text(found.parent_version);
        let prefix: String = cat2("parent version is ", parent.as_str());
        let reason: String = cat3(
            prefix.as_str(),
            ", expected exact fork point ",
            version_digits.as_str(),
        );
        let message: String = fork_kept_text(
            "OCC",
            sidecar.operation_id.as_str(),
            fork.as_str(),
            reason.as_str(),
        );
        return refuse_fork(message.as_str());
    }
    if let Some(expected) = recorded_branch_of(sidecar, pin.identity) {
        if !found.identifier.same(expected) {
            let message: String = fork_kept_text(
                "BranchMerge",
                sidecar.operation_id.as_str(),
                fork.as_str(),
                "live target ref identity differs from the confirmed effect",
            );
            return refuse_fork(message.as_str());
        }
    }
    match found.head_version {
        None => ForkStep::ReadHead,
        Some(head) => {
            if head != version {
                let digits: String = decimal_text(head);
                let prefix: String = cat2("live HEAD is ", digits.as_str());
                let reason: String = cat3(
                    prefix.as_str(),
                    ", expected untouched version ",
                    version_digits.as_str(),
                );
                let message: String = fork_kept_text(
                    "OCC",
                    sidecar.operation_id.as_str(),
                    fork.as_str(),
                    reason.as_str(),
                );
                return refuse_fork(message.as_str());
            }
            ForkStep::DeleteBranch
        },
    }
}

/// The conflict when a target branch appears while what is left of it is removed.
pub open spec fn fork_appeared(branch: Seq<char>) -> OmniErrorModel {
    conflict(
        "target ref '"@ + branch
            + "' appeared during no-effect recovery; refusing to retire its ownership intent"@,
    )
}

/// Checks that what was left of an unlisted target branch is gone: `removed` tells
/// whether the branch was still unlisted.
pub fn fork_reclaimed(branch: &str, removed: bool) -> (result: Result<(), OmniError>)
    ensures
        removed ==> result is Ok,
        !removed ==> result is Err && result->Err_0@ == fork_appeared(branch@),
{
    if removed {
        return Ok(());
    }
    let message: String = cat3(
        "target ref '",
        branch,
        "' appeared during no-effect recovery; refusing to retire its ownership intent",
    );
    Err(OmniError::manifest_conflict(message.as_str()))
}

/// The error when an untouched fork cannot be removed before a rollback that sets
/// tables back: such a rollback may not be put off.
pub fn blocked_rollback_error(
    sidecar: &RecoverySidecar,
    table_path: &str,
    target_branch: &str,
    path_child: &str,
) -> (error: OmniError)
    ensures
        error@ == internal(
            "OCC recovery sidecar '"@ + sidecar@.operation_id
                + "' owns physical effects but cannot clean unpublished fork '"@ + fork_text(
                table_path@,
                target_branch@,
            ) + "' while legacy path-child '"@ + path_child@
                + "' is live; refusing read-write open; delete the child branch leaf-first using an existing handle or an offline Lance-level branch tool, then reopen"@,
        ),
{
    let fork: String = cat3(table_path, ":", target_branch);
    let message: String = cat7(
        "OCC recovery sidecar '",
        sidecar.operation_id.as_str(),
        "' owns physical effects but cannot clean unpublished fork '",
        fork.as_str(),
        "' while legacy path-child '",
        path_child,
        "' is live; refusing read-write open; delete the child branch leaf-first using an existing handle or an offline Lance-level branch tool, then reopen",
    );
    OmniError::manifest_internal(message.as_str())
}

} // verus!
