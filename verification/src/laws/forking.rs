//! When the branches and datasets that an attempt created are removed again.

use vstd::prelude::*;

use crate::classify::ClassifiedTable;
use crate::error::{ManifestErrorKind, OmniError, OmniErrorModel};
use crate::history::{built_index, HeadReading};
use crate::laws::classifying::{confirmed_ref, forked_at, off_main};
use crate::lookup::find_by_identity;
use crate::process::forks::{
    contested, discard_step, fork_reclaimed, untouched_fork, BranchContentsModel,
};
use crate::process::indices::{index_fork_reclaimed, reclaim_step, reclaimable};
use crate::process::schema::deletion;
use crate::rollback::{fork_version, recorded_branch};
use crate::sidecar::{
    RecoveryBranchMergeEffect, RecoveryEnsureIndicesEffect, RecoveryEnsureIndicesEffectModel,
    RecoverySchemaApplyEffectModel, RecoverySidecarModel, SidecarKind, SidecarTablePinModel,
};
use crate::snapshot::SnapshotModel;

verus! {

/// Whether another pending attempt works on a table at a place, on a branch.
pub open spec fn claimed_on(
    pending: Seq<RecoverySidecarModel>,
    operation_id: Seq<char>,
    path: Seq<char>,
    branch: Seq<char>,
) -> bool {
    exists|i: int, j: int|
        {
            &&& 0 <= i < pending.len()
            &&& 0 <= j < pending[i].tables.len()
            &&& pending[i].operation_id != operation_id
            &&& (#[trigger] pending[i].tables[j]).table_path == path
            &&& pending[i].tables[j].table_branch == Some(branch)
        }
}

/// Whether another pending attempt works on a table at a place, on any branch.
pub open spec fn claimed_anywhere(
    pending: Seq<RecoverySidecarModel>,
    operation_id: Seq<char>,
    path: Seq<char>,
) -> bool {
    exists|i: int, j: int|
        {
            &&& 0 <= i < pending.len()
            &&& 0 <= j < pending[i].tables.len()
            &&& pending[i].operation_id != operation_id
            &&& (#[trigger] pending[i].tables[j]).table_path == path
        }
}

/// A place is contested exactly where another pending attempt pins it, on the branch
/// that is asked for or, where none is, on any. An attempt never contests itself.
pub proof fn lemma_when_a_place_is_contested(
    pending: Seq<RecoverySidecarModel>,
    operation_id: Seq<char>,
    path: Seq<char>,
    branch: Seq<char>,
)
    ensures
        contested(pending, operation_id, path, Some(branch)) <==> claimed_on(
            pending,
            operation_id,
            path,
            branch,
        ),
        contested(pending, operation_id, path, None) <==> claimed_anywhere(
            pending,
            operation_id,
            path,
        ),
{
    lemma_contested(pending, operation_id, path, Some(branch));
    lemma_contested(pending, operation_id, path, None);
}

proof fn lemma_contested(
    pending: Seq<RecoverySidecarModel>,
    operation_id: Seq<char>,
    path: Seq<char>,
    branch: Option<Seq<char>>,
)
    ensures
        contested(pending, operation_id, path, branch) <==> exists|i: int, j: int|
            {
                &&& 0 <= i < pending.len()
                &&& 0 <= j < pending[i].tables.len()
                &&& pending[i].operation_id != operation_id
                &&& (#[trigger] pending[i].tables[j]).table_path == path
                &&& branch is Some ==> pending[i].tables[j].table_branch == branch
            },
{
    if contested(pending, operation_id, path, branch) {
        let i = choose|i: int|
            0 <= i < pending.len() && crate::process::forks::rival(
                #[trigger] pending[i],
                operation_id,
                path,
                branch,
            );
        let j = choose|j: int|
            0 <= j < pending[i].tables.len() && crate::process::forks::pin_claims(
                #[trigger] pending[i].tables[j],
                path,
                branch,
            );
        assert(pending[i].tables[j].table_path == path);
    }
    if exists|i: int, j: int|
        {
            &&& 0 <= i < pending.len()
            &&& 0 <= j < pending[i].tables.len()
            &&& pending[i].operation_id != operation_id
            &&& (#[trigger] pending[i].tables[j]).table_path == path
            &&& branch is Some ==> pending[i].tables[j].table_branch == branch
        } {
        let (i, j) = choose|i: int, j: int|
            {
                &&& 0 <= i < pending.len()
                &&& 0 <= j < pending[i].tables.len()
                &&& pending[i].operation_id != operation_id
                &&& (#[trigger] pending[i].tables[j]).table_path == path
                &&& branch is Some ==> pending[i].tables[j].table_branch == branch
            };
        assert(crate::process::forks::pin_claims(pending[i].tables[j], path, branch));
        assert(crate::process::forks::rival(pending[i], operation_id, path, branch));
    }
}

/// A fork is removed exactly where its attempt is described exactly or builds indices,
/// created it, left nothing on it, and nobody else works on it: never the main branch.
/// An ensure-indices run must not have moved the table at all.
pub proof fn lemma_when_a_fork_is_removed(
    sidecar: RecoverySidecarModel,
    pin: SidecarTablePinModel,
    state: ClassifiedTable,
    pending: Seq<RecoverySidecarModel>,
)
    ensures
        ({
            let fork = untouched_fork(sidecar, pin, state, pending);
            let indices = sidecar.writer_kind == SidecarKind::EnsureIndices;
            let described = sidecar.protocol_v3 is Some || sidecar.protocol_v4 is Some
                || sidecar.protocol_v7 is Some || sidecar.protocol_v8 is Some;
            &&& fork is Some <==> {
                &&& described || indices
                &&& state.unpublished_fork
                &&& state.effect_ownership is Absent
                &&& indices ==> state.classification is NoMovement
                &&& off_main(pin)
                &&& !claimed_on(
                    pending,
                    sidecar.operation_id,
                    pin.table_path,
                    pin.table_branch->0,
                )
            }
            &&& fork is Some ==> fork == pin.table_branch
        }),
{
    if pin.table_branch is Some {
        lemma_when_a_place_is_contested(
            pending,
            sidecar.operation_id,
            pin.table_path,
            pin.table_branch->0,
        );
    }
}

/// The version that a fork starts at is the one that its attempt recorded for the
/// table, as a branch merge or as an ensure-indices run; without one it is the version
/// that the pin expects. Its identity is the one that was confirmed, if any was.
pub proof fn lemma_where_a_fork_starts(sidecar: RecoverySidecarModel, pin: SidecarTablePinModel)
    ensures
        ({
            let merged = find_by_identity::<RecoveryBranchMergeEffect>(
                (sidecar.protocol_v4->0).effects,
                pin.identity,
            );
            let indexed = find_by_identity::<RecoveryEnsureIndicesEffect>(
                (sidecar.protocol_v8->0).effects,
                pin.identity,
            );
            let by_merge = sidecar.protocol_v4 is Some && merged is Some;
            let by_run = sidecar.protocol_v8 is Some && indexed is Some;
            &&& by_merge && forked_at(merged->0) is Some ==> fork_version(sidecar, pin)
                == forked_at(merged->0)->0
            &&& !by_merge && by_run && indexed->0.source_fork_version is Some ==> fork_version(
                sidecar,
                pin,
            ) == indexed->0.source_fork_version->0
            &&& !(by_merge && forked_at(merged->0) is Some) && !(by_run
                && indexed->0.source_fork_version is Some) ==> fork_version(sidecar, pin)
                == pin.expected_version
            &&& by_merge && confirmed_ref(merged->0) is Some ==> recorded_branch(
                sidecar,
                pin.identity,
            ) == confirmed_ref(merged->0)
            &&& !by_merge && by_run ==> recorded_branch(sidecar, pin.identity)
                == indexed->0.confirmed_branch_identifier
            &&& !by_merge && !by_run ==> recorded_branch(sidecar, pin.identity) is None
        }),
{
}

/// An untouched fork is removed only as it was made: with no branch below it, listed at
/// the version that it was forked at, as the branch that was confirmed where one was,
/// and with a head that is still that version. One with a branch below it waits, what
/// is left of an unlisted one is cleared away, and any other is reported.
pub proof fn lemma_when_a_fork_is_deleted(
    sidecar: RecoverySidecarModel,
    pin: SidecarTablePinModel,
    branch: Seq<char>,
    path_child: Option<Seq<char>>,
    target: Option<BranchContentsModel>,
)
    ensures
        ({
            let step = discard_step(sidecar, pin, branch, path_child, target);
            let version = fork_version(sidecar, pin);
            let known = recorded_branch(sidecar, pin.identity);
            let listed = path_child is None && target is Some;
            let found = target->0;
            let as_made = found.parent_version == version && (known is None || known->0
                == found.identifier);
            &&& step is Defer <==> path_child is Some
            &&& step is Defer ==> step->Defer_0 == path_child->0
            &&& step is ReclaimTree <==> path_child is None && target is None
            &&& step is ReadHead <==> listed && as_made && found.head_version is None
            &&& step is DeleteBranch <==> listed && as_made && found.head_version == Some(version)
            &&& step is Refuse <==> listed && !(as_made && (found.head_version is None
                || found.head_version == Some(version)))
            &&& step is Refuse ==> is_internal(step->Refuse_0)
            &&& !(step is Keep)
        }),
{
}

/// Whether an error tells of a state that no caller can cause.
pub open spec fn is_internal(error: OmniErrorModel) -> bool {
    error matches OmniErrorModel::Manifest { kind: ManifestErrorKind::Internal, details: None, .. }
}

/// Whether an error tells of another writer.
pub open spec fn is_conflict(error: OmniErrorModel) -> bool {
    error matches OmniErrorModel::Manifest { kind: ManifestErrorKind::Conflict, details: None, .. }
}

/// A dataset that a schema apply created is deleted exactly where the manifest does not
/// have it, nobody else works at its place, and it holds nothing but the commit of the
/// apply, or is gone already. A rewritten table is never deleted; a dataset that holds
/// only what others did is left alone; anything else is reported.
pub proof fn lemma_when_a_new_dataset_is_deleted(
    snapshot: SnapshotModel,
    sidecar: RecoverySidecarModel,
    pin: SidecarTablePinModel,
    state: ClassifiedTable,
    effect: RecoverySchemaApplyEffectModel,
    pending: Seq<RecoverySidecarModel>,
)
    ensures
        ({
            let result = deletion(snapshot, sidecar, pin, state, effect, pending);
            let created = effect.kind is FirstTouchDataset;
            let alone = snapshot.by_identity(pin.identity) is None && !claimed_anywhere(
                pending,
                sidecar.operation_id,
                pin.table_path,
            );
            let own = state.effect_ownership is OwnAtHead && state.lance_head == 1;
            let missing = state.effect_ownership is Absent;
            &&& result is Ok <==> !created || alone && (own || missing)
            &&& result is Ok && result->Ok_0 <==> created && alone && (own || missing
                && state.lance_head == 0)
            &&& result is Err ==> is_internal(result->Err_0)
        }),
{
    lemma_when_a_place_is_contested(
        pending,
        sidecar.operation_id,
        pin.table_path,
        Seq::<char>::empty(),
    );
}

/// A branch that an ensure-indices run forked is reclaimed by its rollback exactly
/// where the manifest does not have the table on it, it is not the main branch, and
/// nobody else works on it; otherwise the rollback is reported. A branch that was there
/// before is left alone.
pub proof fn lemma_when_a_fork_is_reclaimed(
    snapshot: SnapshotModel,
    sidecar: RecoverySidecarModel,
    pin: SidecarTablePinModel,
    effect: RecoveryEnsureIndicesEffectModel,
    pending: Seq<RecoverySidecarModel>,
)
    ensures
        ({
            let result = reclaimable(snapshot, sidecar, pin, effect, pending);
            let forks = effect.source_fork_version is Some;
            let entry = snapshot.by_identity(pin.identity);
            let published = entry is Some && entry->0.table.table_branch == pin.table_branch;
            let free = off_main(pin) && !claimed_on(
                pending,
                sidecar.operation_id,
                pin.table_path,
                pin.table_branch->0,
            );
            &&& result is Ok <==> !forks || !published && free
            &&& result is Ok && result->Ok_0 is None <==> !forks
            &&& result is Ok && result->Ok_0 is Some ==> result->Ok_0 == pin.table_branch
            &&& result is Err ==> is_internal(result->Err_0)
        }),
{
    if pin.table_branch is Some {
        lemma_when_a_place_is_contested(
            pending,
            sidecar.operation_id,
            pin.table_path,
            pin.table_branch->0,
        );
    }
}

/// A forked branch is deleted with the commit of an ensure-indices run on it exactly
/// where no branch is below it, it was forked at the recorded version, is the confirmed
/// one where one was confirmed, holds the commit on top, has not moved since it was
/// looked at, and the commit can be shown to have built an index. A branch without the
/// commit is left to the removal of untouched forks.
pub proof fn lemma_when_an_indexed_fork_is_deleted(
    sidecar: RecoverySidecarModel,
    pin: SidecarTablePinModel,
    state: ClassifiedTable,
    effect: RecoveryEnsureIndicesEffectModel,
    branch: Seq<char>,
    path_child: Option<Seq<char>>,
    target: Option<BranchContentsModel>,
    head: Option<HeadReading>,
)
    requires
        effect.planned_transaction.read_version < u64::MAX,
    ensures
        ({
            let step = reclaim_step(
                sidecar,
                pin,
                state,
                effect,
                branch,
                path_child,
                target,
                head,
            );
            let found = target->0;
            let listed = path_child is None && target is Some;
            let as_made = found.parent_version == effect.source_fork_version->0 && (
            effect.confirmed_branch_identifier is None || effect.confirmed_branch_identifier->0
                == found.identifier);
            let own = state.effect_ownership is OwnAtHead || state.effect_ownership
                is OwnCompensatedAtHead;
            let shown = head->0.version == state.lance_head && built_index(
                head->0.history,
                head->0.version,
                effect.planned_transaction,
            );
            &&& step is ReclaimTree <==> path_child is None && target is None
            &&& step is Keep <==> listed && as_made && state.effect_ownership is Absent
            &&& step is ReadHead <==> listed && as_made && own && head is None
            &&& step is DeleteBranch <==> listed && as_made && own && head is Some && shown
            &&& step is Refuse <==> path_child is Some || listed && (!as_made || !own
                && !(state.effect_ownership is Absent) || own && head is Some && !shown)
            &&& step is Refuse ==> is_internal(step->Refuse_0)
            &&& !(step is Defer)
        }),
{
}

/// A branch that appears while what is left of it is cleared away is a conflict, for an
/// untouched fork and for an ensure-indices run alike; the attempt keeps its sidecar.
pub proof fn lemma_a_reappearing_branch_is_a_conflict(
    branch: &str,
    removed: bool,
    cleared: Result<(), OmniError>,
    indexed: Result<(), OmniError>,
)
    requires
        call_ensures(fork_reclaimed, (branch, removed), cleared),
        call_ensures(index_fork_reclaimed, (branch, removed), indexed),
    ensures
        cleared is Ok <==> removed,
        indexed is Ok <==> removed,
        cleared is Err ==> is_conflict(cleared->Err_0@),
        indexed is Err ==> is_conflict(indexed->Err_0@),
{
}

} // verus!
