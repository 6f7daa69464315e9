//! How the end of an attempt is recognized, whoever reached it.

use vstd::prelude::*;

use crate::lineage::GraphLineageRowModel;
use crate::outcome::{
    delta_visible, find_commit, lineage_matches, slot_visible, visible_outcome, OutcomeStep,
    VisibleExactOutcome,
};
use crate::publish::{
    audit_of, fixed_authority, fixed_lineage, fixed_rollback_id, records, recovery_lineage,
    LineageIntentModel, ManifestChangeModel, RecoveryKind, SubTableUpdateModel,
};
use crate::rollforward::{slot_change, slot_changes};
use crate::shape::defect::named_branch;
use crate::shape::validate::shape_fault;
use crate::sidecar::{
    RecoveryAuthorityTokenModel, RecoveryLineageIntentModel, RecoveryManifestDeltaModel,
    RecoverySidecarModel, RecoveryTableUpdateSlotModel, TableOutcomeModel,
};
use crate::snapshot::SnapshotModel;

verus! {

/// An attempt never ends both ways: where its own commit and its rollback are both
/// visible, nothing is decided.
pub proof fn lemma_never_both(
    label: Seq<char>,
    differs: Seq<char>,
    operation_id: Seq<char>,
    authority: RecoveryAuthorityTokenModel,
    lineage: RecoveryLineageIntentModel,
    rollback_id: Seq<char>,
    delta: RecoveryManifestDeltaModel,
    schema_apply: bool,
    commits: Seq<GraphLineageRowModel>,
    committed: SnapshotModel,
)
    requires
        find_commit(commits, lineage.graph_commit_id) is Some,
        find_commit(commits, rollback_id) is Some,
    ensures
        visible_outcome(
            label,
            differs,
            operation_id,
            authority,
            lineage,
            rollback_id,
            delta,
            schema_apply,
            commits,
            Some(committed),
        ) is Err,
{
}

/// An attempt has ended exactly where one of the two commits that it fixed is
/// visible.
pub proof fn lemma_ended_where_visible(
    label: Seq<char>,
    differs: Seq<char>,
    operation_id: Seq<char>,
    authority: RecoveryAuthorityTokenModel,
    lineage: RecoveryLineageIntentModel,
    rollback_id: Seq<char>,
    delta: RecoveryManifestDeltaModel,
    schema_apply: bool,
    commits: Seq<GraphLineageRowModel>,
    committed: SnapshotModel,
)
    ensures
        ({
            let own = find_commit(commits, lineage.graph_commit_id);
            let undone = find_commit(commits, rollback_id) is Some;
            match visible_outcome(
                label,
                differs,
                operation_id,
                authority,
                lineage,
                rollback_id,
                delta,
                schema_apply,
                commits,
                Some(committed),
            ) {
                Ok(OutcomeStep::Decided(None)) => own is None && !undone,
                Ok(OutcomeStep::Decided(Some(VisibleExactOutcome::RolledBack))) => own is None
                    && undone,
                Ok(OutcomeStep::Decided(Some(VisibleExactOutcome::Original))) => own is Some
                    && !undone && lineage_matches(own->0, authority, lineage, schema_apply)
                    && delta_visible(committed, delta, schema_apply),
                Ok(OutcomeStep::ReadManifestVersion(_)) => false,
                Err(_) => own is Some,
            }
        }),
{
}

/// The commit that a publish under an intent makes, on top of `parent`.
pub open spec fn commit_of(
    intent: LineageIntentModel,
    manifest_version: u64,
    parent: Option<Seq<char>>,
) -> GraphLineageRowModel {
    GraphLineageRowModel {
        graph_commit_id: intent.graph_commit_id,
        manifest_branch: named_branch(intent.branch),
        manifest_version,
        parent_commit_id: parent,
        merged_parent_commit_id: intent.merged_parent_commit_id,
        actor_id: intent.actor_id,
        created_at: intent.created_at,
    }
}

/// What recovery publishes for an exact attempt, a later pass recognizes: a
/// roll-forward on top of the captured head makes the commit that the attempt
/// fixed for itself, and a rollback makes the one that it fixed for that.
pub proof fn lemma_published_is_recognized(
    uri: Seq<char>,
    sidecar: RecoverySidecarModel,
    fresh_id: Seq<char>,
    now: i64,
    manifest_version: u64,
)
    requires
        shape_fault(uri, sidecar) is None,
        fixed_lineage(sidecar) is Some,
    ensures
        ({
            let forward = recovery_lineage(sidecar, RecoveryKind::RolledForward, fresh_id, Ok(now));
            let back = recovery_lineage(sidecar, RecoveryKind::RolledBack, fresh_id, Ok(now));
            let authority = fixed_authority(sidecar)->0;
            let lineage = fixed_lineage(sidecar)->0;
            &&& forward is Ok
            &&& forward->Ok_0.graph_commit_id == lineage.graph_commit_id
            &&& lineage_matches(
                commit_of(forward->Ok_0, manifest_version, authority.graph_head),
                authority,
                lineage,
                sidecar.protocol_v7 is Some,
            )
            &&& back is Ok
            &&& Some(back->Ok_0.graph_commit_id) == fixed_rollback_id(
                sidecar,
                RecoveryKind::RolledBack,
            )
            &&& back->Ok_0.graph_commit_id != lineage.graph_commit_id
        }),
{
}

/// Whether a manifest version selects what an update publishes.
pub open spec fn selects(snapshot: SnapshotModel, update: SubTableUpdateModel) -> bool {
    match snapshot.by_identity(update.identity) {
        Some(entry) => {
            &&& entry.table.table_key == update.table_key
            &&& entry.table.table_version == update.table_version
            &&& entry.table.table_branch == update.table_branch
            &&& entry.table.row_count == update.row_count
            &&& entry.table.version_metadata == update.version_metadata
        },
        None => false,
    }
}

/// The changes that publish the first `n` slots hold each of them.
proof fn lemma_slot_is_published(slots: Seq<RecoveryTableUpdateSlotModel>, n: int, i: int)
    requires
        0 <= i < n <= slots.len(),
    ensures
        slot_changes(slots, n).changes.contains(slot_change(slots[i])),
    decreases n,
{
    let before = slot_changes(slots, n - 1).changes;
    let all = slot_changes(slots, n).changes;
    assert(all == before.push(slot_change(slots[n - 1])));
    if i < n - 1 {
        lemma_slot_is_published(slots, n - 1, i);
        let k = choose|k: int| 0 <= k < before.len() && before[k] == slot_change(slots[i]);
        assert(all[k] == slot_change(slots[i]));
    } else {
        assert(all[before.len() as int] == slot_change(slots[i]));
    }
}

/// Once the manifest selects every update that the roll-forward of a confirmed
/// delta publishes, a later pass sees the whole delta.
pub proof fn lemma_published_delta_is_visible(
    snapshot: SnapshotModel,
    delta: RecoveryManifestDeltaModel,
)
    requires
        forall|i: int|
            0 <= i < delta.table_updates.len() ==> (#[trigger] delta.table_updates[i]).confirmed
                is Some,
        forall|update: SubTableUpdateModel|
            slot_changes(
                delta.table_updates,
                delta.table_updates.len() as int,
            ).changes.contains(ManifestChangeModel::Update(update)) ==> #[trigger] selects(
                snapshot,
                update,
            ),
    ensures
        delta_visible(snapshot, delta, false),
{
    let slots = delta.table_updates;
    assert forall|i: int| 0 <= i < slots.len() implies slot_visible(
        snapshot,
        #[trigger] slots[i],
    ) by {
        lemma_slot_is_published(slots, slots.len() as int, i);
        assert(selects(snapshot, slot_change(slots[i])->Update_0));
    }
}

/// The commits of an exact attempt do not depend on who recovers it, or when: only
/// the rollback's time stamp may.
pub proof fn lemma_fixed_commits(
    sidecar: RecoverySidecarModel,
    fresh_id: Seq<char>,
    other_id: Seq<char>,
    now: i64,
    later: i64,
)
    requires
        fixed_lineage(sidecar) is Some,
    ensures
        recovery_lineage(sidecar, RecoveryKind::RolledForward, fresh_id, Ok(now))
            == recovery_lineage(sidecar, RecoveryKind::RolledForward, other_id, Ok(later)),
        ({
            let first = recovery_lineage(sidecar, RecoveryKind::RolledBack, fresh_id, Ok(now));
            let second = recovery_lineage(sidecar, RecoveryKind::RolledBack, other_id, Ok(later));
            first is Ok && second is Ok && first->Ok_0 == (LineageIntentModel {
                created_at: first->Ok_0.created_at,
                ..second->Ok_0
            })
        }),
{
}

/// The audit row of a recovery is found again by the attempt and the way it ended,
/// so that a retry writes no second one.
pub proof fn lemma_audit_is_found_again(
    sidecar: RecoverySidecarModel,
    graph_commit_id: Seq<char>,
    kind: RecoveryKind,
    outcomes: Seq<TableOutcomeModel>,
    created_at: i64,
)
    ensures
        records(
            audit_of(sidecar, graph_commit_id, kind, outcomes, created_at),
            sidecar.operation_id,
            kind,
        ),
{
}

} // verus!
