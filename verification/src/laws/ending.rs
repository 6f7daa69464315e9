//! How an attempt is found to have ended, and how its end is published and recorded.

use vstd::prelude::*;

use crate::classify::ClassifiedTable;
use crate::error::{ManifestConflictDetailsModel, OmniError, OmniErrorModel};
use crate::laws::forking::is_internal;
use crate::lineage::{GraphLineageRow, GraphLineageRowModel};
use crate::lookup::find_by_identity;
use crate::outcome::{
    check_unreadable_sidecar, detect_visible_ensure_indices_rollback, detect_visible_v3_outcome,
    detect_visible_v4_outcome, detect_visible_v7_outcome, detect_visible_v8_outcome,
    ensure_read_only_schema_coherent, finalize_visible_ensure_indices_rollback,
    finalize_visible_v3_outcome, finalize_visible_v4_outcome, finalize_visible_v7_outcome,
    finalize_visible_v8_outcome, find_commit, missing_audit_row, Finalization, OutcomeStep,
    SchemaStateIdentity, VisibleExactOutcome,
};
use crate::process::general::{
    finalize_effect_free_occ_sidecar, looks_for_exact_outcome, may_be_effect_free,
    unresolved_conflict, RecoveryRoute, UnresolvedConflict,
};
use crate::process::step::{after_publish_error, ConflictStep};
use crate::publish::{
    audit_of, orphan_discard_intent, records, recovery_lineage, recovery_precondition,
    LineageIntent, PublishPrecondition, PublishPreconditionModel, RecoveryAuditRecord, RecoveryKind,
};
use crate::rollback::{
    planned_sidecar, prepared_plan, rollback_outcomes, undo_outcomes, with_plan,
};
use crate::rollforward::{converge_or_defer_roll_forward, converged_commit_id, Convergence};
use crate::shape::validate::shape_fault;
use crate::sidecar::{
    RecoveryAuthorityTokenModel, RecoveryEffectPhase, RecoveryEnsureIndicesRollbackV6,
    RecoveryLineageIntentModel, RecoveryManifestDeltaModel, RecoveryMode, RecoveryProtocolV3,
    RecoveryProtocolV4, RecoveryProtocolV7, RecoveryProtocolV8, RecoverySidecar,
    RecoverySidecarModel, RecoveryTableUpdateSlot, RecoveryTableUpdateSlotModel, SidecarKind,
    SidecarTableRegistrationModel, SidecarTableRenameModel, TableOutcomeModel,
};
use crate::snapshot::{Snapshot, SnapshotModel};
use crate::store::uri_of;
use crate::text::integer_of;
use crate::value::{opt_view, views};

verus! {

/// A branch as the lineage names it: the main branch has no name.
pub open spec fn branch_in_lineage(branch: Option<Seq<char>>) -> Option<Seq<char>> {
    if branch is Some && branch->0 == "main"@ {
        None
    } else {
        branch
    }
}

/// Whether a commit is the one that an attempt fixed: on its branch, on top of the
/// captured head, by its actor, at its time. A schema apply is on main and merges
/// nothing.
pub open spec fn is_own_commit(
    commit: GraphLineageRowModel,
    authority: RecoveryAuthorityTokenModel,
    lineage: RecoveryLineageIntentModel,
    on_main: bool,
) -> bool {
    &&& commit.actor_id == lineage.actor_id
    &&& commit.created_at == lineage.created_at
    &&& authority.graph_head is None || commit.parent_commit_id == authority.graph_head
    &&& if on_main {
        commit.manifest_branch is None && commit.merged_parent_commit_id is None
    } else {
        commit.manifest_branch == branch_in_lineage(lineage.branch)
            && commit.merged_parent_commit_id == lineage.merged_parent_commit_id
    }
}

/// Whether a manifest version selects a table exactly as it was confirmed.
pub open spec fn shows_slot(snapshot: SnapshotModel, slot: RecoveryTableUpdateSlotModel) -> bool {
    let entry = snapshot.by_identity(slot.identity);
    &&& slot.confirmed is Some
    &&& entry is Some
    &&& entry->0.table.table_key == slot.table_key
    &&& entry->0.table.table_version == slot.confirmed->0.table_version
    &&& entry->0.table.table_branch == slot.confirmed->0.table_branch
    &&& entry->0.table.row_count == slot.confirmed->0.row_count
    &&& entry->0.table.version_metadata == slot.confirmed->0.version_metadata
}

/// Whether a manifest version has a table as it was registered.
pub open spec fn shows_registration(
    snapshot: SnapshotModel,
    registration: SidecarTableRegistrationModel,
) -> bool {
    let entry = snapshot.by_identity(registration.identity);
    &&& entry is Some
    &&& entry->0.table.table_key == registration.table_key
    &&& entry->0.table.table_path == registration.table_path
    &&& entry->0.table.table_branch == registration.table_branch
}

/// Whether a manifest version has a table under its new alias.
pub open spec fn shows_rename(snapshot: SnapshotModel, rename: SidecarTableRenameModel) -> bool {
    let entry = snapshot.by_identity(rename.identity);
    &&& entry is Some
    &&& entry->0.table.table_key == rename.table_key
    &&& entry->0.table.table_path == rename.table_path
}

/// Whether a manifest version shows every table that an attempt publishes.
pub open spec fn shows_slots(
    snapshot: SnapshotModel,
    slots: Seq<RecoveryTableUpdateSlotModel>,
) -> bool {
    forall|i: int| 0 <= i < slots.len() ==> shows_slot(snapshot, #[trigger] slots[i])
}

/// Whether a manifest version shows everything that a schema apply publishes.
pub open spec fn shows_schema_delta(
    snapshot: SnapshotModel,
    delta: RecoveryManifestDeltaModel,
) -> bool {
    &&& shows_slots(snapshot, delta.table_updates)
    &&& forall|i: int|
        0 <= i < delta.registrations.len() ==> shows_registration(
            snapshot,
            #[trigger] delta.registrations[i],
        )
    &&& forall|i: int|
        0 <= i < delta.renames.len() ==> shows_rename(snapshot, #[trigger] delta.renames[i])
    &&& forall|i: int|
        0 <= i < delta.tombstones.len() ==> snapshot.by_identity(
            (#[trigger] delta.tombstones[i]).identity,
        ) is None
}

/// Whether the end of an attempt is found from its two fixed commits: nothing ended it
/// where neither is visible, its rollback did where only that one is. Where its own
/// commit is visible as it was fixed, the manifest version of that commit is asked
/// for, and has to show what the attempt published; both at once, a commit that was
/// not made as it was fixed, or a manifest version that shows something else is
/// reported.
pub open spec fn ended_as(
    result: Result<OutcomeStep, OmniError>,
    own: Option<GraphLineageRowModel>,
    undone: bool,
    made_as_fixed: bool,
    read: bool,
    shown: bool,
) -> bool {
    &&& (result matches Ok(OutcomeStep::Decided(None))) <==> own is None && !undone
    &&& (result matches Ok(OutcomeStep::Decided(Some(VisibleExactOutcome::RolledBack)))) <==> own
        is None && undone
    &&& (result matches Ok(OutcomeStep::Decided(Some(VisibleExactOutcome::Original)))) <==> own
        is Some && made_as_fixed && read && shown && !undone
    &&& (result matches Ok(OutcomeStep::ReadManifestVersion(_))) <==> own is Some && made_as_fixed
        && !read
    &&& result matches Ok(OutcomeStep::ReadManifestVersion(version)) ==> version
        == own->0.manifest_version
    &&& result is Err ==> is_internal(result->Err_0@)
}

/// How the end of a mutation or load is found.
pub proof fn lemma_how_a_mutation_ended(
    sidecar: &RecoverySidecar,
    payload: &RecoveryProtocolV3,
    commits: &Vec<GraphLineageRow>,
    committed: &Option<Snapshot>,
    result: Result<OutcomeStep, OmniError>,
)
    requires
        call_ensures(detect_visible_v3_outcome, (sidecar, payload, commits, committed), result),
    ensures
        ({
            let own = find_commit(views(commits@), payload@.lineage.graph_commit_id);
            ended_as(
                result,
                own,
                find_commit(views(commits@), payload@.rollback_graph_commit_id) is Some,
                is_own_commit(own->0, payload@.authority, payload@.lineage, false),
                committed is Some,
                shows_slots(committed->0@, payload@.intended_delta.table_updates),
            )
        }),
{
}

/// How the end of a branch merge is found.
pub proof fn lemma_how_a_merge_ended(
    sidecar: &RecoverySidecar,
    payload: &RecoveryProtocolV4,
    commits: &Vec<GraphLineageRow>,
    committed: &Option<Snapshot>,
    result: Result<OutcomeStep, OmniError>,
)
    requires
        call_ensures(detect_visible_v4_outcome, (sidecar, payload, commits, committed), result),
    ensures
        ({
            let own = find_commit(views(commits@), payload@.lineage.graph_commit_id);
            ended_as(
                result,
                own,
                find_commit(views(commits@), payload@.rollback_graph_commit_id) is Some,
                is_own_commit(own->0, payload@.authority, payload@.lineage, false),
                committed is Some,
                shows_slots(committed->0@, payload@.intended_delta.table_updates),
            )
        }),
{
}

/// How the end of a schema apply is found.
pub proof fn lemma_how_a_schema_apply_ended(
    sidecar: &RecoverySidecar,
    payload: &RecoveryProtocolV7,
    commits: &Vec<GraphLineageRow>,
    committed: &Option<Snapshot>,
    result: Result<OutcomeStep, OmniError>,
)
    requires
        call_ensures(detect_visible_v7_outcome, (sidecar, payload, commits, committed), result),
    ensures
        ({
            let own = find_commit(views(commits@), payload@.lineage.graph_commit_id);
            ended_as(
                result,
                own,
                find_commit(views(commits@), payload@.rollback_graph_commit_id) is Some,
                is_own_commit(own->0, payload@.authority, payload@.lineage, true),
                committed is Some,
                shows_schema_delta(committed->0@, payload@.intended_delta),
            )
        }),
{
}

/// How the end of an ensure-indices run is found.
pub proof fn lemma_how_an_index_run_ended(
    sidecar: &RecoverySidecar,
    payload: &RecoveryProtocolV8,
    commits: &Vec<GraphLineageRow>,
    committed: &Option<Snapshot>,
    result: Result<OutcomeStep, OmniError>,
)
    requires
        call_ensures(detect_visible_v8_outcome, (sidecar, payload, commits, committed), result),
    ensures
        ({
            let own = find_commit(views(commits@), payload@.lineage.graph_commit_id);
            ended_as(
                result,
                own,
                find_commit(views(commits@), payload@.rollback_graph_commit_id) is Some,
                is_own_commit(own->0, payload@.authority, payload@.lineage, false),
                committed is Some,
                shows_slots(committed->0@, payload@.intended_delta.table_updates),
            )
        }),
{
}

/// The rollback of an ensure-indices run that fixed nothing else is found exactly where
/// its commit is visible, made by recovery, on the branch of the run, at the time at
/// which the run started. One that was made otherwise is reported.
pub proof fn lemma_when_an_index_rollback_is_visible(
    sidecar: &RecoverySidecar,
    payload: &RecoveryEnsureIndicesRollbackV6,
    commits: &Vec<GraphLineageRow>,
    result: Result<bool, OmniError>,
)
    requires
        call_ensures(detect_visible_ensure_indices_rollback, (sidecar, payload, commits), result),
    ensures
        ({
            let found = find_commit(views(commits@), payload@.rollback_graph_commit_id);
            let commit = found->0;
            let started = integer_of(sidecar@.started_at);
            let own = {
                &&& started is Some
                &&& commit.created_at == started->0
                &&& commit.manifest_branch == branch_in_lineage(sidecar@.branch)
                &&& commit.actor_id == Some("omnigraph:recovery"@)
                &&& commit.merged_parent_commit_id is None
            };
            &&& result is Ok <==> found is None || own
            &&& result is Ok ==> (result->Ok_0 <==> found is Some)
            &&& result is Err ==> is_internal(result->Err_0@)
        }),
{
}

/// Whether an outcome tells of one table.
pub open spec fn tells_of(
    outcome: TableOutcomeModel,
    alias: Seq<char>,
    from: u64,
    to: u64,
) -> bool {
    outcome.table_key == alias && outcome.from_version == from && outcome.to_version == to
}

/// Whether an attempt is closed as it ended: one that was published under its own
/// commit, one that was undone under its rollback commit, with the outcomes that were
/// planned for it, which have to be there.
pub open spec fn closed_as(
    result: Result<Finalization, OmniError>,
    outcome: VisibleExactOutcome,
    own_id: Seq<char>,
    rollback_id: Seq<char>,
    plan: Option<Seq<TableOutcomeModel>>,
) -> bool {
    match outcome {
        VisibleExactOutcome::Original => {
            &&& result is Ok
            &&& result->Ok_0.kind is RolledForward
            &&& result->Ok_0.graph_commit_id@ == own_id
        },
        VisibleExactOutcome::RolledBack => {
            &&& result is Ok <==> plan is Some
            &&& result is Ok ==> result->Ok_0.kind is RolledBack
            &&& result is Ok ==> result->Ok_0.graph_commit_id@ == rollback_id
            &&& result is Ok ==> views(result->Ok_0.outcomes@) == plan->0
            &&& result is Err ==> is_internal(result->Err_0@)
        },
    }
}

/// A mutation or load is closed as it ended, table by pinned table.
pub proof fn lemma_how_a_mutation_is_closed(
    sidecar: &RecoverySidecar,
    payload: &RecoveryProtocolV3,
    outcome: VisibleExactOutcome,
    result: Result<Finalization, OmniError>,
)
    requires
        call_ensures(finalize_visible_v3_outcome, (sidecar, payload, outcome), result),
    ensures
        closed_as(
            result,
            outcome,
            payload@.lineage.graph_commit_id,
            payload@.rollback_graph_commit_id,
            payload@.rollback_audit_outcomes,
        ),
        outcome is Original ==> {
            let told = views(result->Ok_0.outcomes@);
            let pins = sidecar@.tables;
            &&& told.len() == pins.len()
            &&& forall|i: int|
                0 <= i < pins.len() ==> tells_of(
                    told[i],
                    (#[trigger] pins[i]).table_key,
                    pins[i].expected_version,
                    find_by_identity::<RecoveryTableUpdateSlot>(
                        payload@.intended_delta.table_updates,
                        pins[i].identity,
                    )->0.confirmed->0.table_version,
                )
        },
{
}

/// Whether outcomes tell of every slot in order.
pub open spec fn tells_of_slots(
    told: Seq<TableOutcomeModel>,
    slots: Seq<RecoveryTableUpdateSlotModel>,
) -> bool {
    &&& told.len() == slots.len()
    &&& forall|i: int|
        0 <= i < slots.len() ==> tells_of(
            told[i],
            (#[trigger] slots[i]).table_key,
            slots[i].expected_version,
            slots[i].confirmed->0.table_version,
        )
}

/// A branch merge is closed as it ended, slot by slot.
pub proof fn lemma_how_a_merge_is_closed(
    sidecar: &RecoverySidecar,
    payload: &RecoveryProtocolV4,
    outcome: VisibleExactOutcome,
    result: Result<Finalization, OmniError>,
)
    requires
        call_ensures(finalize_visible_v4_outcome, (sidecar, payload, outcome), result),
    ensures
        closed_as(
            result,
            outcome,
            payload@.lineage.graph_commit_id,
            payload@.rollback_graph_commit_id,
            payload@.rollback_audit_outcomes,
        ),
        outcome is Original ==> tells_of_slots(
            views(result->Ok_0.outcomes@),
            payload@.intended_delta.table_updates,
        ),
{
}

/// A schema apply is closed as it ended, slot by slot.
pub proof fn lemma_how_a_schema_apply_is_closed(
    sidecar: &RecoverySidecar,
    payload: &RecoveryProtocolV7,
    outcome: VisibleExactOutcome,
    result: Result<Finalization, OmniError>,
)
    requires
        call_ensures(finalize_visible_v7_outcome, (sidecar, payload, outcome), result),
    ensures
        closed_as(
            result,
            outcome,
            payload@.lineage.graph_commit_id,
            payload@.rollback_graph_commit_id,
            payload@.rollback_audit_outcomes,
        ),
        outcome is Original ==> tells_of_slots(
            views(result->Ok_0.outcomes@),
            payload@.intended_delta.table_updates,
        ),
{
}

/// An ensure-indices run is closed as it ended, slot by slot.
pub proof fn lemma_how_an_index_run_is_closed(
    sidecar: &RecoverySidecar,
    payload: &RecoveryProtocolV8,
    outcome: VisibleExactOutcome,
    result: Result<Finalization, OmniError>,
)
    requires
        call_ensures(finalize_visible_v8_outcome, (sidecar, payload, outcome), result),
    ensures
        closed_as(
            result,
            outcome,
            payload@.lineage.graph_commit_id,
            payload@.rollback_graph_commit_id,
            payload@.rollback_audit_outcomes,
        ),
        outcome is Original ==> tells_of_slots(
            views(result->Ok_0.outcomes@),
            payload@.intended_delta.table_updates,
        ),
{
}

/// An ensure-indices run that fixed nothing but its rollback is closed as undone.
pub proof fn lemma_how_an_index_rollback_is_closed(
    sidecar: &RecoverySidecar,
    payload: &RecoveryEnsureIndicesRollbackV6,
    result: Result<Finalization, OmniError>,
)
    requires
        call_ensures(finalize_visible_ensure_indices_rollback, (sidecar, payload), result),
    ensures
        closed_as(
            result,
            VisibleExactOutcome::RolledBack,
            Seq::empty(),
            payload@.rollback_graph_commit_id,
            payload@.rollback_audit_outcomes,
        ),
{
}

/// An audit row tells of one end of one attempt: it names the attempt, its writer and
/// the actor that it was made for, the way it ended, the commit and the tables. It is
/// found again by the attempt and the way it ended alone.
pub proof fn lemma_what_an_audit_row_tells(
    sidecar: RecoverySidecarModel,
    graph_commit_id: Seq<char>,
    kind: RecoveryKind,
    outcomes: Seq<TableOutcomeModel>,
    created_at: i64,
    operation_id: Seq<char>,
    other: RecoveryKind,
)
    ensures
        ({
            let row = audit_of(sidecar, graph_commit_id, kind, outcomes, created_at);
            &&& row.graph_commit_id == graph_commit_id
            &&& row.recovery_kind == kind
            &&& row.recovery_for_actor == sidecar.actor_id
            &&& row.operation_id == sidecar.operation_id
            &&& row.per_table_outcomes == outcomes
            &&& row.created_at == created_at
            &&& row.sidecar_writer_kind == match sidecar.writer_kind {
                SidecarKind::Mutation => "Mutation"@,
                SidecarKind::Load => "Load"@,
                SidecarKind::SchemaApply => "SchemaApply"@,
                SidecarKind::BranchMerge => "BranchMerge"@,
                SidecarKind::EnsureIndices => "EnsureIndices"@,
                SidecarKind::Optimize => "Optimize"@,
            }
            &&& records(row, operation_id, other) <==> operation_id == sidecar.operation_id && other
                == kind
        }),
{
}

/// Whether there is an audit row of an end of an attempt.
pub open spec fn audited(
    rows: Seq<RecoveryAuditRecord>,
    operation_id: Seq<char>,
    kind: RecoveryKind,
) -> bool {
    exists|i: int|
        {
            &&& 0 <= i < rows.len()
            &&& (#[trigger] rows[i]).operation_id@ == operation_id
            &&& rows[i].recovery_kind == kind
        }
}

/// The audit row of a closed attempt is left out only where one tells of the same end of
/// the same attempt; otherwise it tells of this one.
pub proof fn lemma_when_an_audit_row_is_left_out(
    sidecar: &RecoverySidecar,
    closing: Finalization,
    rows: &Vec<RecoveryAuditRecord>,
    created_at: i64,
    row: Option<RecoveryAuditRecord>,
)
    requires
        call_ensures(missing_audit_row, (sidecar, closing, rows, created_at), row),
    ensures
        row is None ==> audited(rows@, sidecar.operation_id@, closing.kind),
        row is Some ==> {
            &&& row->0.graph_commit_id@ == closing.graph_commit_id@
            &&& row->0.recovery_kind == closing.kind
            &&& row->0.operation_id@ == sidecar.operation_id@
            &&& views(row->0.per_table_outcomes@) == views(closing.outcomes@)
            &&& row->0.created_at == created_at
        },
{
    if row is None {
        let i = choose|i: int|
            0 <= i < rows@.len() && records(
                (#[trigger] rows@[i])@,
                sidecar.operation_id@,
                closing.kind,
            );
        assert(rows@[i].operation_id@ == sidecar.operation_id@);
    }
}

/// Whether a payload fixes the commits of its attempt.
pub open spec fn fixes_commits(sidecar: RecoverySidecarModel) -> bool {
    ||| sidecar.protocol_v3 is Some
    ||| sidecar.protocol_v4 is Some
    ||| sidecar.protocol_v7 is Some
    ||| sidecar.protocol_v8 is Some
}

/// The lineage that the one payload of a sidecar fixes.
pub open spec fn lineage_fixed(sidecar: RecoverySidecarModel) -> RecoveryLineageIntentModel {
    if sidecar.protocol_v3 is Some {
        sidecar.protocol_v3->0.lineage
    } else if sidecar.protocol_v4 is Some {
        sidecar.protocol_v4->0.lineage
    } else if sidecar.protocol_v7 is Some {
        sidecar.protocol_v7->0.lineage
    } else {
        sidecar.protocol_v8->0.lineage
    }
}

/// The rollback commit that the one payload of a sidecar fixes.
pub open spec fn rollback_fixed(sidecar: RecoverySidecarModel) -> Seq<char> {
    if sidecar.protocol_v3 is Some {
        sidecar.protocol_v3->0.rollback_graph_commit_id
    } else if sidecar.protocol_v4 is Some {
        sidecar.protocol_v4->0.rollback_graph_commit_id
    } else if sidecar.protocol_v7 is Some {
        sidecar.protocol_v7->0.rollback_graph_commit_id
    } else if sidecar.protocol_v8 is Some {
        sidecar.protocol_v8->0.rollback_graph_commit_id
    } else {
        sidecar.ensure_indices_rollback_v6->0.rollback_graph_commit_id
    }
}

/// The authority that the one payload of a sidecar captured.
pub open spec fn authority_fixed(sidecar: RecoverySidecarModel) -> RecoveryAuthorityTokenModel {
    if sidecar.protocol_v3 is Some {
        sidecar.protocol_v3->0.authority
    } else if sidecar.protocol_v4 is Some {
        sidecar.protocol_v4->0.authority
    } else if sidecar.protocol_v7 is Some {
        sidecar.protocol_v7->0.authority
    } else {
        sidecar.protocol_v8->0.authority
    }
}

/// A recovery commits under the lineage that its attempt fixed: a roll-forward as the
/// writer itself would have, a rollback under the fixed id, by recovery, on the branch
/// of the attempt, at the time at which the attempt started where that is a time. What
/// fixed nothing is committed by recovery under a fresh id, and a merge that is rolled
/// forward names its source. The branch of an attempt that fixed its commits is never
/// discarded as an orphan.
pub proof fn lemma_how_a_recovery_is_committed(
    sidecar: RecoverySidecarModel,
    kind: RecoveryKind,
    fresh_id: Seq<char>,
    now: Result<i64, OmniErrorModel>,
)
    ensures
        ({
            let result = recovery_lineage(sidecar, kind, fresh_id, now);
            let made = result->Ok_0;
            let exact = fixes_commits(sidecar);
            let undoes = exact || sidecar.ensure_indices_rollback_v6 is Some;
            let forward = kind is RolledForward;
            let back = kind is RolledBack;
            let fixed = lineage_fixed(sidecar);
            let started = integer_of(sidecar.started_at);
            let timed = started is Some && i64::MIN <= started->0 <= i64::MAX;
            &&& forward && exact ==> {
                &&& result is Ok
                &&& made.graph_commit_id == fixed.graph_commit_id
                &&& made.branch == fixed.branch
                &&& made.actor_id == fixed.actor_id
                &&& made.merged_parent_commit_id == fixed.merged_parent_commit_id
                &&& made.created_at == fixed.created_at
            }
            &&& back && undoes ==> {
                &&& result is Ok <==> now is Ok
                &&& result is Ok ==> {
                    &&& made.graph_commit_id == rollback_fixed(sidecar)
                    &&& made.branch == sidecar.branch
                    &&& made.actor_id == Some("omnigraph:recovery"@)
                    &&& made.merged_parent_commit_id is None
                    &&& timed ==> made.created_at == started->0
                    &&& !timed ==> made.created_at == now->Ok_0
                }
            }
            &&& kind is OrphanedBranchDiscarded && exact ==> result is Err && is_internal(
                result->Err_0,
            )
            &&& !exact && !(back && undoes) ==> {
                &&& result is Ok <==> now is Ok
                &&& result is Ok ==> {
                    &&& made.graph_commit_id == fresh_id
                    &&& made.branch == sidecar.branch
                    &&& made.actor_id == Some("omnigraph:recovery"@)
                    &&& made.created_at == now->Ok_0
                    &&& made.merged_parent_commit_id == if forward && sidecar.writer_kind
                        == SidecarKind::BranchMerge {
                        sidecar.merge_source_commit_id
                    } else {
                        None
                    }
                }
            }
            &&& now is Err && result is Err && !(kind is OrphanedBranchDiscarded && exact)
                ==> result->Err_0 == now->Err_0
        }),
{
}

/// The roll-forward of an exact attempt publishes only onto the branch and the graph
/// head that it was validated against; everything else publishes onto any head.
pub proof fn lemma_what_a_publish_requires(
    sidecar: &RecoverySidecar,
    kind: RecoveryKind,
    precondition: PublishPrecondition,
)
    requires
        call_ensures(recovery_precondition, (sidecar, kind), precondition),
    ensures
        precondition is ExactGraphHead <==> kind is RolledForward && fixes_commits(sidecar@),
        precondition@ matches PublishPreconditionModel::ExactGraphHead {
            branch,
            branch_identifier,
            graph_head,
        } ==> {
            &&& branch == sidecar@.branch
            &&& branch_identifier == authority_fixed(sidecar@).branch_identifier
            &&& graph_head == authority_fixed(sidecar@).graph_head
        },
{
}

/// The discard of a sidecar whose branch is gone is committed on main by recovery.
pub proof fn lemma_how_a_discard_is_committed(
    fresh_id: String,
    created_at: i64,
    intent: LineageIntent,
)
    requires
        call_ensures(orphan_discard_intent, (fresh_id, created_at), intent),
    ensures
        intent.graph_commit_id@ == fresh_id@,
        intent.branch is None,
        opt_view(intent.actor_id) == Some("omnigraph:recovery"@),
        intent.merged_parent_commit_id is None,
        intent.created_at == created_at,
{
}

/// A plan is fixed in the one payload of a sidecar, and nothing else of the sidecar
/// changes: its tables, its phase and its commits stay.
pub proof fn lemma_a_plan_changes_nothing_else(
    sidecar: RecoverySidecarModel,
    plan: Seq<TableOutcomeModel>,
)
    requires
        fixes_commits(sidecar) || sidecar.ensure_indices_rollback_v6 is Some,
        prepared_plan(sidecar) is None,
    ensures
        ({
            let planned = with_plan(sidecar, plan);
            &&& prepared_plan(planned) == Some(plan)
            &&& planned.schema_version == sidecar.schema_version
            &&& planned.operation_id == sidecar.operation_id
            &&& planned.started_at == sidecar.started_at
            &&& planned.branch == sidecar.branch
            &&& planned.actor_id == sidecar.actor_id
            &&& planned.writer_kind == sidecar.writer_kind
            &&& planned.tables == sidecar.tables
            &&& planned.additional_registrations == sidecar.additional_registrations
            &&& planned.tombstones == sidecar.tombstones
            &&& fixes_commits(planned) == fixes_commits(sidecar)
            &&& rollback_fixed(planned) == rollback_fixed(sidecar)
            &&& fixes_commits(sidecar) ==> lineage_fixed(planned) == lineage_fixed(sidecar)
            &&& fixes_commits(sidecar) ==> authority_fixed(planned) == authority_fixed(sidecar)
            &&& sidecar.protocol_v3 is Some ==> planned.protocol_v3->0.effects
                == sidecar.protocol_v3->0.effects && planned.protocol_v3->0.effect_phase
                == sidecar.protocol_v3->0.effect_phase && planned.protocol_v3->0.intended_delta
                == sidecar.protocol_v3->0.intended_delta
        }),
{
}

/// A rollback is recorded with the outcomes that were planned, where a mutation, a
/// load, a branch merge or a loose ensure-indices run planned some, and otherwise with
/// what was done.
pub proof fn lemma_what_a_rollback_records(
    sidecar: RecoverySidecarModel,
    done: Seq<TableOutcomeModel>,
)
    ensures
        ({
            let v3 = sidecar.protocol_v3;
            let v4 = sidecar.protocol_v4;
            let v6 = sidecar.ensure_indices_rollback_v6;
            let recorded = rollback_outcomes(sidecar, done);
            &&& v3 is Some && v3->0.rollback_audit_outcomes is Some ==> recorded
                == v3->0.rollback_audit_outcomes->0
            &&& v3 is None && v4 is Some && v4->0.rollback_audit_outcomes is Some ==> recorded
                == v4->0.rollback_audit_outcomes->0
            &&& v3 is None && v4 is None && v6 is Some && v6->0.rollback_audit_outcomes is Some
                ==> recorded == v6->0.rollback_audit_outcomes->0
            &&& (v3 is None || v3->0.rollback_audit_outcomes is None) && (v4 is None
                || v4->0.rollback_audit_outcomes is None) && (v6 is None
                || v6->0.rollback_audit_outcomes is None) ==> recorded == done
        }),
{
}

/// A roll-forward that lost the race to publish is done where the manifest shows every
/// pinned table under its alias at its head or later, every new table under its alias,
/// and none of the removed ones; then what is left depends on the sidecar alone. It
/// waits otherwise.
pub proof fn lemma_when_a_lost_race_is_done(
    fresh: &Snapshot,
    sidecar: &RecoverySidecar,
    states: &Vec<ClassifiedTable>,
    sidecar_exists: bool,
    next: Convergence,
)
    requires
        states.len() == sidecar.tables.len(),
        call_ensures(converge_or_defer_roll_forward, (fresh, sidecar, states, sidecar_exists), next),
    ensures
        ({
            let seen = |i: int|
                {
                    let entry = fresh@.by_identity(sidecar@.tables[i].identity);
                    &&& entry is Some
                    &&& entry->0.table.table_key == sidecar@.tables[i].table_key
                    &&& entry->0.table.table_version >= states@[i].lance_head
                };
            let list = sidecar@.additional_registrations;
            let gone = sidecar@.tombstones;
            let reached = {
                &&& forall|i: int| 0 <= i < sidecar@.tables.len() ==> #[trigger] seen(i)
                &&& forall|i: int|
                    0 <= i < list.len() ==> {
                        let entry = fresh@.by_identity((#[trigger] list[i]).identity);
                        entry is Some && entry->0.table.table_key == list[i].table_key
                    }
                &&& forall|i: int|
                    0 <= i < gone.len() ==> fresh@.by_identity(
                        (#[trigger] gone[i]).identity,
                    ) is None
            };
            &&& next is Deferred <==> !reached
            &&& next is AlreadyFinished <==> reached && !sidecar_exists
            &&& next is FinishBookkeeping <==> reached && sidecar_exists
        }),
{
    let seen = |i: int|
        {
            let entry = fresh@.by_identity(sidecar@.tables[i].identity);
            &&& entry is Some
            &&& entry->0.table.table_key == sidecar@.tables[i].table_key
            &&& entry->0.table.table_version >= states@[i].lance_head
        };
    if !(next is Deferred) {
        assert forall|i: int| 0 <= i < sidecar@.tables.len() implies #[trigger] seen(i) by {
            let pin = sidecar@.tables[i];
        }
    }
    if forall|i: int| 0 <= i < sidecar@.tables.len() ==> #[trigger] seen(i) {
        assert forall|i: int| 0 <= i < sidecar@.tables.len() implies {
            let entry = fresh@.by_identity((#[trigger] sidecar@.tables[i]).identity);
            &&& entry is Some
            &&& entry->0.table.table_key == sidecar@.tables[i].table_key
            &&& entry->0.table.table_version >= states@[i].lance_head
        } by {
            assert(seen(i));
        }
    }
}

/// A convergence is recorded under the newest commit of recovery, or under the head of
/// the branch where recovery made none.
pub proof fn lemma_what_a_convergence_names(
    latest: Option<String>,
    head: Option<String>,
    id: String,
)
    requires
        call_ensures(converged_commit_id, (latest, head), id),
    ensures
        latest is Some ==> id@ == latest->0@,
        latest is None && head is Some ==> id@ == head->0@,
        latest is None && head is None ==> id@.len() == 0,
{
}

/// After a failed publish, an attempt with fixed commits looks for them where what it
/// read changed, one that is recovered by its classes looks whether its goal is reached
/// where a table is at another version, and everything else fails.
pub proof fn lemma_what_follows_a_failed_publish(
    fixed_outcomes: bool,
    by_classification: bool,
    error: &OmniError,
    next: ConflictStep,
)
    requires
        call_ensures(after_publish_error, (fixed_outcomes, by_classification, error), next),
    ensures
        ({
            let changed = error@ matches OmniErrorModel::Manifest {
                details: Some(ManifestConflictDetailsModel::ReadSetChanged { .. }),
                ..
            };
            let moved = error@ matches OmniErrorModel::Manifest {
                details: Some(ManifestConflictDetailsModel::ExpectedVersionMismatch { .. }),
                ..
            };
            &&& next is LookForVisibleOutcome <==> fixed_outcomes && changed
            &&& next is Converge <==> by_classification && moved
            &&& next is Fail <==> !(fixed_outcomes && changed) && !(by_classification && moved)
        }),
{
}

/// An exact attempt that could not be published and of which no fixed commit is visible
/// is undone only where it is a schema apply and the graph is opened; while the graph
/// is served it waits, but for one that is recovered by its classes.
pub proof fn lemma_what_follows_an_unresolved_conflict(
    taken: RecoveryRoute,
    mode: RecoveryMode,
    next: UnresolvedConflict,
)
    requires
        call_ensures(unresolved_conflict, (taken, mode), next),
    ensures
        next is RollBack <==> taken is SchemaApply && mode is Full,
        next is Defer <==> !(taken is General) && mode is RollForwardOnly,
        next is Fail <==> taken is General || mode is Full && !(taken is SchemaApply),
{
}

/// Fixed commits are searched for exactly for a mutation or load with an exact payload.
/// Maintenance of the newest generation never has one.
pub proof fn lemma_when_fixed_commits_are_searched(sidecar: &RecoverySidecar, answer: bool)
    requires
        call_ensures(looks_for_exact_outcome, (sidecar,), answer),
    ensures
        sidecar.schema_version == 9 ==> (answer <==> sidecar.protocol_v3 is Some && (
        sidecar.writer_kind == SidecarKind::Mutation || sidecar.writer_kind == SidecarKind::Load)),
        sidecar.schema_version != 9 ==> (answer <==> sidecar.protocol_v3 is Some
            && sidecar.protocol_v8 is None && sidecar.protocol_v7 is None && sidecar.protocol_v4
            is None),
{
}

/// An attempt is retired without recovery only where it is an armed mutation or load of
/// the newest generation, every table can be read, and none carries a commit of it.
pub proof fn lemma_when_an_attempt_is_retired(
    sidecar: &RecoverySidecar,
    states: &Vec<ClassifiedTable>,
    asked: Result<bool, OmniError>,
    result: Result<bool, OmniError>,
)
    requires
        states.len() == sidecar.tables.len(),
        call_ensures(may_be_effect_free, (sidecar,), asked),
        call_ensures(finalize_effect_free_occ_sidecar, (sidecar, states), result),
    ensures
        ({
            let fits = sidecar.schema_version == 9 && (sidecar.writer_kind == SidecarKind::Mutation
                || sidecar.writer_kind == SidecarKind::Load) && sidecar.protocol_v3 is Some;
            let armed = sidecar.protocol_v3->0.effect_phase == RecoveryEffectPhase::Armed;
            &&& asked is Ok <==> fits
            &&& asked is Ok ==> (asked->Ok_0 <==> armed)
            &&& result is Ok <==> fits
            &&& result is Ok ==> (result->Ok_0 <==> armed && forall|i: int|
                0 <= i < states@.len() ==> (#[trigger] states@[i]).effect_ownership is Absent)
            &&& result is Err ==> is_internal(result->Err_0@)
        }),
{
    let facts = crate::process::step::summary(sidecar@.tables, states@);
    if exists|i: int|
        0 <= i < states@.len() && !((#[trigger] states@[i]).effect_ownership is Absent) {
        let i = choose|i: int|
            0 <= i < states@.len() && !((#[trigger] states@[i]).effect_ownership is Absent);
        assert(facts.unverifiable || facts.own_effect);
    }
}

/// A sidecar that cannot be read stands in the way of a read-only open exactly where a
/// schema is staged, and asks for recovery then.
pub proof fn lemma_when_an_unreadable_sidecar_blocks(
    uri: &str,
    reason: &str,
    schema_staged: bool,
    result: Result<(), OmniError>,
)
    requires
        call_ensures(check_unreadable_sidecar, (uri, reason, schema_staged), result),
    ensures
        result is Ok <==> !schema_staged,
        result is Err ==> result->Err_0@ is RecoveryRequired,
{
}

/// A pending sidecar stands in the way of a read-only open only where it is a schema
/// apply. An exact one lets it pass exactly where the live schema is the one that the
/// visible manifest goes with: the target where the apply was published, and the
/// captured one otherwise. One without an exact payload lets it pass exactly where it
/// is known to have been published and its target is live. What stands in the way asks
/// for recovery by name.
pub proof fn lemma_when_a_read_only_open_passes(
    sidecar: &RecoverySidecar,
    outcome: &Result<Option<VisibleExactOutcome>, OmniError>,
    live: &Result<SchemaStateIdentity, OmniError>,
    result: Result<(), OmniError>,
)
    requires
        call_ensures(ensure_read_only_schema_coherent, (sidecar, outcome, live), result),
    ensures
        ({
            let seen = live->Ok_0@;
            let payload = sidecar@.protocol_v7->0;
            let published = *outcome == Ok::<Option<VisibleExactOutcome>, OmniError>(
                Some(VisibleExactOutcome::Original),
            );
            let target = sidecar@.schema_apply_target_schema_ir_hash;
            let known = sidecar.schema_version == 5 && sidecar.schema_apply_manifest_published;
            &&& sidecar.writer_kind != SidecarKind::SchemaApply ==> result is Ok
            &&& sidecar.writer_kind == SidecarKind::SchemaApply && sidecar.protocol_v7 is Some ==> (
            result is Ok <==> {
                &&& outcome is Ok
                &&& live is Ok
                &&& seen.schema_identity_domain == payload.authority.schema_identity_domain
                &&& seen.schema_identity_version == payload.authority.schema_identity_version
                &&& published ==> seen.schema_ir_hash == payload.target_schema_ir_hash
                &&& !published ==> seen.schema_ir_hash == payload.authority.schema_ir_hash
            })
            &&& sidecar.writer_kind == SidecarKind::SchemaApply && sidecar.protocol_v7 is None ==> (
            result is Ok <==> known && target is Some && live is Ok && seen.schema_ir_hash
                == target->0)
            &&& result is Err ==> result->Err_0@ is RecoveryRequired
                && result->Err_0@->RecoveryRequired_operation_id == sidecar.operation_id@
        }),
{
}

/// A rollback plan is fixed exactly where one is already, which then stays, or where the
/// attempt fixes its rollback and still keeps the rules with the plan: the tables that are
/// going to be undone.
pub proof fn lemma_when_a_plan_is_fixed(
    root: Seq<char>,
    sidecar: RecoverySidecarModel,
    states: Seq<ClassifiedTable>,
)
    ensures
        ({
            let result = planned_sidecar(root, sidecar, states);
            let planned = with_plan(
                sidecar,
                undo_outcomes(sidecar, states, states.len() as int),
            );
            let fits = (fixes_commits(sidecar) || sidecar.ensure_indices_rollback_v6 is Some)
                && shape_fault(uri_of(root, sidecar.operation_id), planned) is None;
            &&& result is Ok <==> has_plan(sidecar) || fits
            &&& has_plan(sidecar) ==> result->Ok_0 == sidecar
            &&& !has_plan(sidecar) && result is Ok ==> result->Ok_0 == planned
        }),
{
}

/// Whether a payload of a sidecar has a rollback plan.
pub open spec fn has_plan(sidecar: RecoverySidecarModel) -> bool {
    ||| sidecar.protocol_v3 is Some && sidecar.protocol_v3->0.rollback_audit_outcomes is Some
    ||| sidecar.protocol_v4 is Some && sidecar.protocol_v4->0.rollback_audit_outcomes is Some
    ||| sidecar.protocol_v7 is Some && sidecar.protocol_v7->0.rollback_audit_outcomes is Some
    ||| sidecar.protocol_v8 is Some && sidecar.protocol_v8->0.rollback_audit_outcomes is Some
    ||| sidecar.ensure_indices_rollback_v6 is Some
        && sidecar.ensure_indices_rollback_v6->0.rollback_audit_outcomes is Some
}

} // verus!
