//! Finding out from the visible lineage how an attempt ended, and closing it.
//!
//! An attempt fixes the ids of both commits that can end it before its first
//! effect: the commit that it publishes itself and the commit of its rollback.
//! Seeing one of them in the lineage is proof of that end, where matching table
//! versions would not be.

use vstd::prelude::*;

use crate::error::{error_text, internal, OmniError, OmniErrorModel};
use crate::lineage::{GraphLineageRow, GraphLineageRowModel};
use crate::lookup::{find_by_identity, first_place, lemma_first_place, place_of};
use crate::publish::{
    already_recorded, audit_of, audit_record, records, RecoveryAuditRecord, RecoveryKind,
};
use crate::rollforward::{schema_apply_outcomes, slot_outcomes};
use crate::shape::defect::named_branch;
use crate::sidecar::{
    RecoveryAuthorityToken, RecoveryAuthorityTokenModel, RecoveryEnsureIndicesRollbackV6,
    RecoveryEnsureIndicesRollbackV6Model, RecoveryLineageIntent, RecoveryLineageIntentModel,
    RecoveryManifestDelta, RecoveryManifestDeltaModel, RecoveryProtocolV3, RecoveryProtocolV3Model,
    RecoveryProtocolV4, RecoveryProtocolV4Model, RecoveryProtocolV7, RecoveryProtocolV7Model,
    RecoveryProtocolV8, RecoveryProtocolV8Model, RecoverySidecar, RecoverySidecarModel,
    RecoveryTableUpdateSlot, RecoveryTableUpdateSlotModel, SidecarKind, SidecarTablePin,
    SidecarTablePinModel, SidecarTableRegistration, SidecarTableRegistrationModel,
    SidecarTableRename, SidecarTableRenameModel, SidecarTombstone, SidecarTombstoneModel,
    TableOutcome, TableOutcomeModel, RECOVERY_ACTOR, SCHEMA_APPLY_CONFIRMATION_SCHEMA_VERSION,
};
use crate::snapshot::{snapshot_entry_by_identity, Snapshot, SnapshotModel};
use crate::text::{
    cat2, cat3, cat4, cat5, cat6, cat7, decimal, decimal_text, ends_with, has_suffix, integer_of,
    not_an_integer, parse_i64, same_text,
};
use crate::value::{opt_view, replicate_vec, same_opt, views, Same};

verus! {

/// The ids of a list of commits.
pub open spec fn commit_ids(commits: Seq<GraphLineageRowModel>) -> Seq<Seq<char>> {
    Seq::new(commits.len(), |i: int| commits[i].graph_commit_id)
}

/// The first commit with an id, if there is one.
pub open spec fn find_commit(commits: Seq<GraphLineageRowModel>, id: Seq<char>) -> Option<
    GraphLineageRowModel,
> {
    if commit_ids(commits).contains(id) {
        Some(commits[first_place(commit_ids(commits), id)])
    } else {
        None
    }
}

/// The first commit with an id, if there is one.
pub fn commit_with_id<'a>(commits: &'a Vec<GraphLineageRow>, id: &String) -> (commit: Option<
    &'a GraphLineageRow,
>)
    ensures
        opt_view(commit) == find_commit(views(commits@), id@),
{
    let ghost models = views(commits@);
    let ghost ids = commit_ids(models);
    let mut i: usize = 0;
    while i < commits.len()
        invariant
            i <= commits.len(),
            models == views(commits@),
            ids == commit_ids(models),
            forall|j: int| 0 <= j < i ==> ids[j] != id@,
        decreases commits.len() - i,
    {
        assert(ids[i as int] == commits@[i as int].graph_commit_id@);
        if commits[i].graph_commit_id == *id {
            proof {
                lemma_first_place(ids, id@, i as int);
            }
            return Some(&commits[i]);
        }
        i += 1;
    }
    assert(!ids.contains(id@));
    None
}

/// How an exact attempt ended.
#[derive(Clone, Copy, Debug, PartialEq, Eq, Structural)]
pub enum VisibleExactOutcome {
    /// The attempt's own commit is visible.
    Original,
    /// The commit of its rollback is visible.
    RolledBack,
}

/// What is known of the end of an attempt.
#[derive(Clone, Copy, Debug, PartialEq, Eq, Structural)]
pub enum OutcomeStep {
    /// The attempt's own commit is visible. Read the manifest version that it made,
    /// and ask again.
    ReadManifestVersion(u64),
    /// How the attempt ended, if it did.
    Decided(Option<VisibleExactOutcome>),
}

/// Whether a commit is the one that an attempt fixed for itself. A schema apply
/// runs on main and merges nothing.
pub open spec fn lineage_matches(
    commit: GraphLineageRowModel,
    authority: RecoveryAuthorityTokenModel,
    lineage: RecoveryLineageIntentModel,
    schema_apply: bool,
) -> bool {
    let branch = if schema_apply {
        None
    } else {
        named_branch(lineage.branch)
    };
    let merged = if schema_apply {
        None
    } else {
        lineage.merged_parent_commit_id
    };
    &&& commit.manifest_branch == branch
    &&& authority.graph_head is Some ==> commit.parent_commit_id == authority.graph_head
    &&& commit.merged_parent_commit_id == merged
    &&& commit.actor_id == lineage.actor_id
    &&& commit.created_at == lineage.created_at
}

/// Whether a commit is the one that an attempt fixed for itself.
fn is_lineage_match(
    commit: &GraphLineageRow,
    authority: &RecoveryAuthorityToken,
    lineage: &RecoveryLineageIntent,
    schema_apply: bool,
) -> (answer: bool)
    ensures
        answer == lineage_matches(commit@, authority@, lineage@, schema_apply),
{
    let branch_matches: bool = if schema_apply {
        commit.manifest_branch.is_none()
    } else {
        match (&commit.manifest_branch, &lineage.branch) {
            (Some(actual), Some(expected)) => *actual == *expected && !same_text(
                expected.as_str(),
                "main",
            ),
            (Some(_), None) => false,
            (None, Some(expected)) => same_text(expected.as_str(), "main"),
            (None, None) => true,
        }
    };
    let merged_matches: bool = if schema_apply {
        commit.merged_parent_commit_id.is_none()
    } else {
        same_opt(&commit.merged_parent_commit_id, &lineage.merged_parent_commit_id)
    };
    branch_matches && (authority.graph_head.is_none() || same_opt(
        &commit.parent_commit_id,
        &authority.graph_head,
    )) && merged_matches && same_opt(&commit.actor_id, &lineage.actor_id) && commit.created_at
        == lineage.created_at
}

/// Whether a manifest version holds a confirmed output slot.
pub open spec fn slot_visible(snapshot: SnapshotModel, slot: RecoveryTableUpdateSlotModel) -> bool {
    match (slot.confirmed, snapshot.by_identity(slot.identity)) {
        (Some(confirmed), Some(entry)) => {
            &&& entry.table.table_key == slot.table_key
            &&& entry.table.table_version == confirmed.table_version
            &&& entry.table.table_branch == confirmed.table_branch
            &&& entry.table.row_count == confirmed.row_count
            &&& entry.table.version_metadata == confirmed.version_metadata
        },
        _ => false,
    }
}

/// Whether a manifest version holds a registered table.
pub open spec fn registration_visible(
    snapshot: SnapshotModel,
    registration: SidecarTableRegistrationModel,
) -> bool {
    match snapshot.by_identity(registration.identity) {
        Some(entry) => {
            &&& entry.table.table_key == registration.table_key
            &&& entry.table.table_path == registration.table_path
            &&& entry.table.table_branch == registration.table_branch
        },
        None => false,
    }
}

/// Whether a manifest version holds a renamed table.
pub open spec fn rename_visible(snapshot: SnapshotModel, rename: SidecarTableRenameModel) -> bool {
    match snapshot.by_identity(rename.identity) {
        Some(entry) => entry.table.table_key == rename.table_key && entry.table.table_path
            == rename.table_path,
        None => false,
    }
}

/// Whether a manifest version holds every output slot.
pub open spec fn slots_visible(
    snapshot: SnapshotModel,
    slots: Seq<RecoveryTableUpdateSlotModel>,
) -> bool {
    forall|i: int| 0 <= i < slots.len() ==> slot_visible(snapshot, #[trigger] slots[i])
}

/// Whether a manifest version holds every registered table.
pub open spec fn registrations_visible(
    snapshot: SnapshotModel,
    list: Seq<SidecarTableRegistrationModel>,
) -> bool {
    forall|i: int| 0 <= i < list.len() ==> registration_visible(snapshot, #[trigger] list[i])
}

/// Whether a manifest version holds every renamed table.
pub open spec fn renames_visible(
    snapshot: SnapshotModel,
    list: Seq<SidecarTableRenameModel>,
) -> bool {
    forall|i: int| 0 <= i < list.len() ==> rename_visible(snapshot, #[trigger] list[i])
}

/// Whether a manifest version holds none of the removed tables.
pub open spec fn tombstones_visible(
    snapshot: SnapshotModel,
    list: Seq<SidecarTombstoneModel>,
) -> bool {
    forall|i: int|
        0 <= i < list.len() ==> snapshot.by_identity((#[trigger] list[i]).identity) is None
}

/// Whether a manifest version shows exactly what an attempt meant to publish.
pub open spec fn delta_visible(
    snapshot: SnapshotModel,
    delta: RecoveryManifestDeltaModel,
    schema_apply: bool,
) -> bool {
    &&& slots_visible(snapshot, delta.table_updates)
    &&& schema_apply ==> {
        &&& registrations_visible(snapshot, delta.registrations)
        &&& renames_visible(snapshot, delta.renames)
        &&& tombstones_visible(snapshot, delta.tombstones)
    }
}

/// Whether a manifest version holds a confirmed output slot.
fn is_slot_visible(snapshot: &Snapshot, slot: &RecoveryTableUpdateSlot) -> (answer: bool)
    ensures
        answer == slot_visible(snapshot@, slot@),
{
    match (&slot.confirmed, snapshot_entry_by_identity(snapshot, slot.identity)) {
        (Some(confirmed), Some(entry)) => entry.table.table_key == slot.table_key
            && entry.table.table_version == confirmed.table_version && same_opt(
            &entry.table.table_branch,
            &confirmed.table_branch,
        ) && entry.table.row_count == confirmed.row_count && entry.table.version_metadata.same(
            &confirmed.version_metadata,
        ),
        _ => false,
    }
}

/// Whether a manifest version holds every output slot.
fn are_slots_visible(snapshot: &Snapshot, slots: &Vec<RecoveryTableUpdateSlot>) -> (answer: bool)
    ensures
        answer == slots_visible(snapshot@, views(slots@)),
{
    let ghost models = views(slots@);
    let mut i: usize = 0;
    while i < slots.len()
        invariant
            i <= slots.len(),
            models == views(slots@),
            forall|j: int| 0 <= j < i ==> slot_visible(snapshot@, #[trigger] models[j]),
        decreases slots.len() - i,
    {
        assert(models[i as int] == slots@[i as int]@);
        if !is_slot_visible(snapshot, &slots[i]) {
            assert(!slot_visible(snapshot@, models[i as int]));
            return false;
        }
        i += 1;
    }
    true
}

/// Whether a manifest version shows the registrations of a schema apply.
fn are_registrations_visible(snapshot: &Snapshot, list: &Vec<SidecarTableRegistration>) -> (answer:
    bool)
    ensures
        answer == registrations_visible(snapshot@, views(list@)),
{
    let ghost models = views(list@);
    let mut i: usize = 0;
    while i < list.len()
        invariant
            i <= list.len(),
            models == views(list@),
            forall|j: int| 0 <= j < i ==> registration_visible(snapshot@, #[trigger] models[j]),
        decreases list.len() - i,
    {
        assert(models[i as int] == list@[i as int]@);
        let visible: bool = match snapshot_entry_by_identity(snapshot, list[i].identity) {
            Some(entry) => entry.table.table_key == list[i].table_key && entry.table.table_path
                == list[i].table_path && same_opt(
                &entry.table.table_branch,
                &list[i].table_branch,
            ),
            None => false,
        };
        if !visible {
            assert(!registration_visible(snapshot@, models[i as int]));
            return false;
        }
        i += 1;
    }
    true
}

/// Whether a manifest version shows the renames of a schema apply.
fn are_renames_visible(snapshot: &Snapshot, list: &Vec<SidecarTableRename>) -> (answer: bool)
    ensures
        answer == renames_visible(snapshot@, views(list@)),
{
    let ghost models = views(list@);
    let mut i: usize = 0;
    while i < list.len()
        invariant
            i <= list.len(),
            models == views(list@),
            forall|j: int| 0 <= j < i ==> rename_visible(snapshot@, #[trigger] models[j]),
        decreases list.len() - i,
    {
        assert(models[i as int] == list@[i as int]@);
        let visible: bool = match snapshot_entry_by_identity(snapshot, list[i].identity) {
            Some(entry) => entry.table.table_key == list[i].table_key && entry.table.table_path
                == list[i].table_path,
            None => false,
        };
        if !visible {
            assert(!rename_visible(snapshot@, models[i as int]));
            return false;
        }
        i += 1;
    }
    true
}

/// Whether a manifest version shows the removals of a schema apply.
fn are_tombstones_visible(snapshot: &Snapshot, list: &Vec<SidecarTombstone>) -> (answer: bool)
    ensures
        answer == tombstones_visible(snapshot@, views(list@)),
{
    let ghost models = views(list@);
    let mut i: usize = 0;
    while i < list.len()
        invariant
            i <= list.len(),
            models == views(list@),
            forall|j: int|
                0 <= j < i ==> snapshot@.by_identity((#[trigger] models[j]).identity) is None,
        decreases list.len() - i,
    {
        assert(models[i as int] == list@[i as int]@);
        if snapshot_entry_by_identity(snapshot, list[i].identity).is_some() {
            assert(!(snapshot@.by_identity(models[i as int].identity) is None));
            return false;
        }
        i += 1;
    }
    true
}

/// Whether a manifest version shows exactly what an attempt meant to publish.
fn is_delta_visible(snapshot: &Snapshot, delta: &RecoveryManifestDelta, schema_apply: bool) -> (answer:
    bool)
    ensures
        answer == delta_visible(snapshot@, delta@, schema_apply),
{
    are_slots_visible(snapshot, &delta.table_updates) && (!schema_apply || (
    are_registrations_visible(snapshot, &delta.registrations) && are_renames_visible(
        snapshot,
        &delta.renames,
    ) && are_tombstones_visible(snapshot, &delta.tombstones)))
}

/// What the lineage shows of the end of an attempt. `label` names the sidecar in
/// messages, `differs` the way in which a manifest version can be wrong.
pub open spec fn visible_outcome(
    label: Seq<char>,
    differs: Seq<char>,
    operation_id: Seq<char>,
    authority: RecoveryAuthorityTokenModel,
    lineage: RecoveryLineageIntentModel,
    rollback_id: Seq<char>,
    delta: RecoveryManifestDeltaModel,
    schema_apply: bool,
    commits: Seq<GraphLineageRowModel>,
    committed: Option<SnapshotModel>,
) -> Result<OutcomeStep, OmniErrorModel> {
    let rolled_back = find_commit(commits, rollback_id) is Some;
    let found = label + " '"@ + operation_id + "' found original commit id '"@
        + lineage.graph_commit_id;
    match find_commit(commits, lineage.graph_commit_id) {
        None => Ok(
            OutcomeStep::Decided(
                if rolled_back {
                    Some(VisibleExactOutcome::RolledBack)
                } else {
                    None
                },
            ),
        ),
        Some(commit) => if !lineage_matches(commit, authority, lineage, schema_apply) {
            Err(internal(found + "' with mismatched lineage"@))
        } else {
            match committed {
                None => Ok(OutcomeStep::ReadManifestVersion(commit.manifest_version)),
                Some(snapshot) => if !delta_visible(snapshot, delta, schema_apply) {
                    Err(internal(found + differs))
                } else if rolled_back {
                    Err(
                        internal(
                            (label + " '"@ + operation_id + "' has both original commit '"@
                                + lineage.graph_commit_id) + "' and rollback commit '"@
                                + rollback_id
                                + "' visible; refusing ambiguous finalization"@,
                        ),
                    )
                } else {
                    Ok(OutcomeStep::Decided(Some(VisibleExactOutcome::Original)))
                },
            }
        },
    }
}

/// Relates a result to what the lineage shows.
pub open spec fn step_result(
    result: Result<OutcomeStep, OmniError>,
    expected: Result<OutcomeStep, OmniErrorModel>,
) -> bool {
    match expected {
        Ok(step) => result == Ok::<OutcomeStep, OmniError>(step),
        Err(error) => result is Err && result->Err_0@ == error,
    }
}

/// Finds out from the lineage how an attempt ended.
fn find_visible_outcome(
    label: &str,
    differs: &str,
    operation_id: &str,
    authority: &RecoveryAuthorityToken,
    lineage: &RecoveryLineageIntent,
    rollback_id: &String,
    delta: &RecoveryManifestDelta,
    schema_apply: bool,
    commits: &Vec<GraphLineageRow>,
    committed: &Option<Snapshot>,
) -> (result: Result<OutcomeStep, OmniError>)
    ensures
        step_result(
            result,
            visible_outcome(
                label@,
                differs@,
                operation_id@,
                authority@,
                lineage@,
                rollback_id@,
                delta@,
                schema_apply,
                views(commits@),
                opt_view(*committed),
            ),
        ),
{
    let rolled_back: bool = commit_with_id(commits, rollback_id).is_some();
    let commit: &GraphLineageRow = match commit_with_id(commits, &lineage.graph_commit_id) {
        Some(commit) => commit,
        None => {
            return Ok(
                OutcomeStep::Decided(
                    if rolled_back {
                        Some(VisibleExactOutcome::RolledBack)
                    } else {
                        None
                    },
                ),
            );
        },
    };
    let found: String = cat5(
        label,
        " '",
        operation_id,
        "' found original commit id '",
        lineage.graph_commit_id.as_str(),
    );
    if !is_lineage_match(commit, authority, lineage, schema_apply) {
        let message: String = cat2(found.as_str(), "' with mismatched lineage");
        return Err(OmniError::manifest_internal(message.as_str()));
    }
    let snapshot: &Snapshot = match committed {
        Some(snapshot) => snapshot,
        None => {
            return Ok(OutcomeStep::ReadManifestVersion(commit.manifest_version));
        },
    };
    if !is_delta_visible(snapshot, delta, schema_apply) {
        let message: String = cat2(found.as_str(), differs);
        return Err(OmniError::manifest_internal(message.as_str()));
    }
    if rolled_back {
        let both: String = cat5(
            label,
            " '",
            operation_id,
            "' has both original commit '",
            lineage.graph_commit_id.as_str(),
        );
        let message: String = cat4(
            both.as_str(),
            "' and rollback commit '",
            rollback_id.as_str(),
            "' visible; refusing ambiguous finalization",
        );
        return Err(OmniError::manifest_internal(message.as_str()));
    }
    Ok(OutcomeStep::Decided(Some(VisibleExactOutcome::Original)))
}

/// What the lineage shows of the end of an exact mutation or load.
pub open spec fn mutation_outcome(
    sidecar: RecoverySidecarModel,
    payload: RecoveryProtocolV3Model,
    commits: Seq<GraphLineageRowModel>,
    committed: Option<SnapshotModel>,
) -> Result<OutcomeStep, OmniErrorModel> {
    visible_outcome(
        "OCC recovery sidecar"@,
        "' but its manifest delta differs"@,
        sidecar.operation_id,
        payload.authority,
        payload.lineage,
        payload.rollback_graph_commit_id,
        payload.intended_delta,
        false,
        commits,
        committed,
    )
}

/// What the lineage shows of the end of an exact branch merge.
pub open spec fn merge_outcome(
    sidecar: RecoverySidecarModel,
    payload: RecoveryProtocolV4Model,
    commits: Seq<GraphLineageRowModel>,
    committed: Option<SnapshotModel>,
) -> Result<OutcomeStep, OmniErrorModel> {
    visible_outcome(
        "BranchMerge recovery sidecar"@,
        "' but its exact manifest delta differs"@,
        sidecar.operation_id,
        payload.authority,
        payload.lineage,
        payload.rollback_graph_commit_id,
        payload.intended_delta,
        false,
        commits,
        committed,
    )
}

/// What the lineage shows of the end of an exact schema apply.
pub open spec fn schema_outcome(
    sidecar: RecoverySidecarModel,
    payload: RecoveryProtocolV7Model,
    commits: Seq<GraphLineageRowModel>,
    committed: Option<SnapshotModel>,
) -> Result<OutcomeStep, OmniErrorModel> {
    visible_outcome(
        "SchemaApply sidecar"@,
        "' but its exact manifest delta differs"@,
        sidecar.operation_id,
        payload.authority,
        payload.lineage,
        payload.rollback_graph_commit_id,
        payload.intended_delta,
        true,
        commits,
        committed,
    )
}

/// What the lineage shows of the end of an exact ensure-indices run.
pub open spec fn index_outcome(
    sidecar: RecoverySidecarModel,
    payload: RecoveryProtocolV8Model,
    commits: Seq<GraphLineageRowModel>,
    committed: Option<SnapshotModel>,
) -> Result<OutcomeStep, OmniErrorModel> {
    visible_outcome(
        "EnsureIndices recovery sidecar"@,
        "' but its exact manifest delta differs"@,
        sidecar.operation_id,
        payload.authority,
        payload.lineage,
        payload.rollback_graph_commit_id,
        payload.intended_delta,
        false,
        commits,
        committed,
    )
}

/// Finds out from the lineage how an exact mutation or load ended.
pub fn detect_visible_v3_outcome(
    sidecar: &RecoverySidecar,
    payload: &RecoveryProtocolV3,
    commits: &Vec<GraphLineageRow>,
    committed: &Option<Snapshot>,
) -> (result: Result<OutcomeStep, OmniError>)
    ensures
        step_result(
            result,
            mutation_outcome(sidecar@, payload@, views(commits@), opt_view(*committed)),
        ),
{
    find_visible_outcome(
        "OCC recovery sidecar",
        "' but its manifest delta differs",
        sidecar.operation_id.as_str(),
        &payload.authority,
        &payload.lineage,
        &payload.rollback_graph_commit_id,
        &payload.intended_delta,
        false,
        commits,
        committed,
    )
}

/// Finds out from the lineage how an exact branch merge ended.
pub fn detect_visible_v4_outcome(
    sidecar: &RecoverySidecar,
    payload: &RecoveryProtocolV4,
    commits: &Vec<GraphLineageRow>,
    committed: &Option<Snapshot>,
) -> (result: Result<OutcomeStep, OmniError>)
    ensures
        step_result(
            result,
            merge_outcome(sidecar@, payload@, views(commits@), opt_view(*committed)),
        ),
{
    find_visible_outcome(
        "BranchMerge recovery sidecar",
        "' but its exact manifest delta differs",
        sidecar.operation_id.as_str(),
        &payload.authority,
        &payload.lineage,
        &payload.rollback_graph_commit_id,
        &payload.intended_delta,
        false,
        commits,
        committed,
    )
}

/// Finds out from the lineage how an exact schema apply ended.
pub fn detect_visible_v7_outcome(
    sidecar: &RecoverySidecar,
    payload: &RecoveryProtocolV7,
    commits: &Vec<GraphLineageRow>,
    committed: &Option<Snapshot>,
) -> (result: Result<OutcomeStep, OmniError>)
    ensures
        step_result(
            result,
            schema_outcome(sidecar@, payload@, views(commits@), opt_view(*committed)),
        ),
{
    find_visible_outcome(
        "SchemaApply sidecar",
        "' but its exact manifest delta differs",
        sidecar.operation_id.as_str(),
        &payload.authority,
        &payload.lineage,
        &payload.rollback_graph_commit_id,
        &payload.intended_delta,
        true,
        commits,
        committed,
    )
}

/// Finds out from the lineage how an exact ensure-indices run ended.
pub fn detect_visible_v8_outcome(
    sidecar: &RecoverySidecar,
    payload: &RecoveryProtocolV8,
    commits: &Vec<GraphLineageRow>,
    committed: &Option<Snapshot>,
) -> (result: Result<OutcomeStep, OmniError>)
    ensures
        step_result(
            result,
            index_outcome(sidecar@, payload@, views(commits@), opt_view(*committed)),
        ),
{
    find_visible_outcome(
        "EnsureIndices recovery sidecar",
        "' but its exact manifest delta differs",
        sidecar.operation_id.as_str(),
        &payload.authority,
        &payload.lineage,
        &payload.rollback_graph_commit_id,
        &payload.intended_delta,
        false,
        commits,
        committed,
    )
}

/// Whether the rollback of an ensure-indices run that fixed nothing but its rollback
/// is visible, or why that cannot be told.
pub open spec fn index_rollback_visible(
    sidecar: RecoverySidecarModel,
    payload: RecoveryEnsureIndicesRollbackV6Model,
    commits: Seq<GraphLineageRowModel>,
) -> Result<bool, OmniErrorModel> {
    let label = "EnsureIndices recovery sidecar '"@ + sidecar.operation_id;
    match find_commit(commits, payload.rollback_graph_commit_id) {
        None => Ok(false),
        Some(commit) => match integer_of(sidecar.started_at) {
            Some(started) if i64::MIN <= started <= i64::MAX => if commit.manifest_branch
                == named_branch(sidecar.branch) && commit.actor_id == Some(RECOVERY_ACTOR@)
                && commit.merged_parent_commit_id is None && commit.created_at == started {
                Ok(true)
            } else {
                Err(
                    internal(
                        label + "' found rollback commit id '"@ + payload.rollback_graph_commit_id
                            + "' with mismatched lineage"@,
                    ),
                )
            },
            _ => Err(
                internal(
                    label + "' has invalid started_at '"@ + sidecar.started_at + "': "@
                        + not_an_integer(sidecar.started_at),
                ),
            ),
        },
    }
}

/// Whether the rollback of an ensure-indices run that fixed nothing but its rollback
/// is visible.
pub fn detect_visible_ensure_indices_rollback(
    sidecar: &RecoverySidecar,
    payload: &RecoveryEnsureIndicesRollbackV6,
    commits: &Vec<GraphLineageRow>,
) -> (result: Result<bool, OmniError>)
    ensures
        match index_rollback_visible(sidecar@, payload@, views(commits@)) {
            Ok(visible) => result == Ok::<bool, OmniError>(visible),
            Err(error) => result is Err && result->Err_0@ == error,
        },
{
    let commit: &GraphLineageRow = match commit_with_id(commits, &payload.rollback_graph_commit_id) {
        Some(commit) => commit,
        None => {
            return Ok(false);
        },
    };
    let label: String = cat2("EnsureIndices recovery sidecar '", sidecar.operation_id.as_str());
    let started: i64 = match parse_i64(sidecar.started_at.as_str()) {
        Ok(started) => started,
        Err(reason) => {
            let message: String = cat5(
                label.as_str(),
                "' has invalid started_at '",
                sidecar.started_at.as_str(),
                "': ",
                reason.as_str(),
            );
            return Err(OmniError::manifest_internal(message.as_str()));
        },
    };
    let branch_matches: bool = match (&commit.manifest_branch, &sidecar.branch) {
        (Some(actual), Some(expected)) => *actual == *expected && !same_text(
            expected.as_str(),
            "main",
        ),
        (Some(_), None) => false,
        (None, Some(expected)) => same_text(expected.as_str(), "main"),
        (None, None) => true,
    };
    let actor_matches: bool = match &commit.actor_id {
        Some(actor) => same_text(actor.as_str(), RECOVERY_ACTOR),
        None => false,
    };
    if branch_matches && actor_matches && commit.merged_parent_commit_id.is_none()
        && commit.created_at == started {
        return Ok(true);
    }
    let message: String = cat4(
        label.as_str(),
        "' found rollback commit id '",
        payload.rollback_graph_commit_id.as_str(),
        "' with mismatched lineage",
    );
    Err(OmniError::manifest_internal(message.as_str()))
}

/// What closes an attempt: the kind of its end, the commit that ended it, and the
/// outcomes that the audit row records.
#[derive(Debug, PartialEq, Eq)]
pub struct Finalization {
    pub kind: RecoveryKind,
    pub graph_commit_id: String,
    pub outcomes: Vec<TableOutcome>,
}

/// What a [`Finalization`] stands for.
pub struct FinalizationModel {
    pub kind: RecoveryKind,
    pub graph_commit_id: Seq<char>,
    pub outcomes: Seq<TableOutcomeModel>,
}

impl View for Finalization {
    type V = FinalizationModel;

    open spec fn view(&self) -> FinalizationModel {
        FinalizationModel {
            kind: self.kind,
            graph_commit_id: self.graph_commit_id@,
            outcomes: views(self.outcomes@),
        }
    }
}

/// Relates a result to what closes an attempt.
pub open spec fn closing_result(
    result: Result<Finalization, OmniError>,
    expected: Result<FinalizationModel, OmniErrorModel>,
) -> bool {
    match expected {
        Ok(closing) => result is Ok && result->Ok_0@ == closing,
        Err(error) => result is Err && result->Err_0@ == error,
    }
}

/// What closes an attempt whose rollback is visible: the outcomes that were made
/// durable before the rollback, and nothing that could be inferred now.
pub open spec fn rollback_closing(
    label: Seq<char>,
    missing: Seq<char>,
    operation_id: Seq<char>,
    rollback_id: Seq<char>,
    plan: Option<Seq<TableOutcomeModel>>,
) -> Result<FinalizationModel, OmniErrorModel> {
    match plan {
        Some(outcomes) => Ok(
            FinalizationModel {
                kind: RecoveryKind::RolledBack,
                graph_commit_id: rollback_id,
                outcomes,
            },
        ),
        None => Err(
            internal(
                label + " '"@ + operation_id + "' has visible fixed rollback commit '"@
                    + rollback_id + missing,
            ),
        ),
    }
}

/// Closes an attempt whose rollback is visible.
fn close_rollback(
    label: &str,
    missing: &str,
    operation_id: &str,
    rollback_id: &String,
    plan: &Option<Vec<TableOutcome>>,
) -> (result: Result<Finalization, OmniError>)
    ensures
        closing_result(
            result,
            rollback_closing(
                label@,
                missing@,
                operation_id@,
                rollback_id@,
                match *plan {
                    Some(outcomes) => Some(views(outcomes@)),
                    None => None,
                },
            ),
        ),
{
    match plan {
        Some(outcomes) => Ok(
            Finalization {
                kind: RecoveryKind::RolledBack,
                graph_commit_id: rollback_id.clone(),
                outcomes: replicate_vec(outcomes),
            },
        ),
        None => {
            let message: String = cat6(
                label,
                " '",
                operation_id,
                "' has visible fixed rollback commit '",
                rollback_id.as_str(),
                missing,
            );
            Err(OmniError::manifest_internal(message.as_str()))
        },
    }
}

/// Whether every output slot is confirmed.
pub open spec fn all_confirmed(slots: Seq<RecoveryTableUpdateSlot>) -> bool {
    forall|i: int| 0 <= i < slots.len() ==> (#[trigger] slots[i]).confirmed is Some
}

/// Whether the output slot of a pin is confirmed.
pub open spec fn pin_confirmed(
    pin: SidecarTablePinModel,
    slots: Seq<RecoveryTableUpdateSlotModel>,
) -> bool {
    match find_by_identity::<RecoveryTableUpdateSlot>(slots, pin.identity) {
        Some(slot) => slot.confirmed is Some,
        None => false,
    }
}

/// Whether the output slot of every pin is confirmed.
pub open spec fn pins_confirmed(
    pins: Seq<SidecarTablePinModel>,
    slots: Seq<RecoveryTableUpdateSlotModel>,
) -> bool {
    forall|i: int| 0 <= i < pins.len() ==> pin_confirmed(#[trigger] pins[i], slots)
}

/// The outcome of publishing the confirmed output of a pin.
pub open spec fn pin_outcome(
    pin: SidecarTablePinModel,
    slots: Seq<RecoveryTableUpdateSlotModel>,
) -> TableOutcomeModel {
    TableOutcomeModel {
        table_key: pin.table_key,
        from_version: pin.expected_version,
        to_version: find_by_identity::<RecoveryTableUpdateSlot>(
            slots,
            pin.identity,
        )->0.confirmed->0.table_version,
    }
}

/// The outcomes of publishing the confirmed output of every pin.
pub open spec fn pin_outcomes(
    pins: Seq<SidecarTablePinModel>,
    slots: Seq<RecoveryTableUpdateSlotModel>,
) -> Seq<TableOutcomeModel> {
    Seq::new(pins.len(), |i: int| pin_outcome(pins[i], slots))
}

/// The outcomes of publishing the confirmed output of every pin.
fn collect_pin_outcomes(pins: &Vec<SidecarTablePin>, slots: &Vec<RecoveryTableUpdateSlot>) -> (outcomes:
    Vec<TableOutcome>)
    requires
        pins_confirmed(views(pins@), views(slots@)),
    ensures
        views(outcomes@) == pin_outcomes(views(pins@), views(slots@)),
{
    let ghost models = views(pins@);
    let ghost slot_models = views(slots@);
    let mut outcomes: Vec<TableOutcome> = Vec::new();
    let mut i: usize = 0;
    while i < pins.len()
        invariant
            i <= pins.len(),
            models == views(pins@),
            slot_models == views(slots@),
            pins_confirmed(models, slot_models),
            outcomes.len() == i,
            forall|j: int|
                0 <= j < i ==> (#[trigger] outcomes@[j])@ == pin_outcome(models[j], slot_models),
        decreases pins.len() - i,
    {
        let pin: &SidecarTablePin = &pins[i];
        assert(models[i as int] == pin@);
        assert(pin_confirmed(models[i as int], slot_models));
        let to_version: u64 = match place_of(slots, pin.identity) {
            Some(at) => match &slots[at].confirmed {
                Some(confirmed) => confirmed.table_version,
                None => {
                    assert(false);
                    0
                },
            },
            None => {
                assert(false);
                0
            },
        };
        outcomes.push(
            TableOutcome {
                table_key: pin.table_key.clone(),
                from_version: pin.expected_version,
                to_version,
            },
        );
        i += 1;
    }
    assert(views(outcomes@) =~= pin_outcomes(models, slot_models));
    outcomes
}

/// What closes an exact mutation or load whose end is visible.
pub open spec fn mutation_closing(
    sidecar: RecoverySidecarModel,
    payload: RecoveryProtocolV3Model,
    outcome: VisibleExactOutcome,
) -> Result<FinalizationModel, OmniErrorModel> {
    match outcome {
        VisibleExactOutcome::Original => Ok(
            FinalizationModel {
                kind: RecoveryKind::RolledForward,
                graph_commit_id: payload.lineage.graph_commit_id,
                outcomes: pin_outcomes(sidecar.tables, payload.intended_delta.table_updates),
            },
        ),
        VisibleExactOutcome::RolledBack => rollback_closing(
            "OCC recovery sidecar"@,
            "' but no durable rollback audit outcomes; refusing to infer them from table pins"@,
            sidecar.operation_id,
            payload.rollback_graph_commit_id,
            payload.rollback_audit_outcomes,
        ),
    }
}

/// Closes an exact mutation or load whose end is visible.
pub fn finalize_visible_v3_outcome(
    sidecar: &RecoverySidecar,
    payload: &RecoveryProtocolV3,
    outcome: VisibleExactOutcome,
) -> (result: Result<Finalization, OmniError>)
    requires
        outcome == VisibleExactOutcome::Original ==> pins_confirmed(sidecar@.tables, payload@.intended_delta.table_updates),
    ensures
        closing_result(result, mutation_closing(sidecar@, payload@, outcome)),
{
    match outcome {
        VisibleExactOutcome::Original => Ok(
            Finalization {
                kind: RecoveryKind::RolledForward,
                graph_commit_id: payload.lineage.graph_commit_id.clone(),
                outcomes: collect_pin_outcomes(&sidecar.tables, &payload.intended_delta.table_updates),
            },
        ),
        VisibleExactOutcome::RolledBack => close_rollback(
            "OCC recovery sidecar",
            "' but no durable rollback audit outcomes; refusing to infer them from table pins",
            sidecar.operation_id.as_str(),
            &payload.rollback_graph_commit_id,
            &payload.rollback_audit_outcomes,
        ),
    }
}

/// What closes an exact branch merge whose end is visible.
pub open spec fn merge_closing(
    sidecar: RecoverySidecarModel,
    payload: RecoveryProtocolV4Model,
    outcome: VisibleExactOutcome,
) -> Result<FinalizationModel, OmniErrorModel> {
    match outcome {
        VisibleExactOutcome::Original => Ok(
            FinalizationModel {
                kind: RecoveryKind::RolledForward,
                graph_commit_id: payload.lineage.graph_commit_id,
                outcomes: slot_outcomes(payload.intended_delta.table_updates),
            },
        ),
        VisibleExactOutcome::RolledBack => rollback_closing(
            "BranchMerge recovery sidecar"@,
            "' but no durable rollback audit outcomes"@,
            sidecar.operation_id,
            payload.rollback_graph_commit_id,
            payload.rollback_audit_outcomes,
        ),
    }
}

/// Closes an exact branch merge whose end is visible.
pub fn finalize_visible_v4_outcome(
    sidecar: &RecoverySidecar,
    payload: &RecoveryProtocolV4,
    outcome: VisibleExactOutcome,
) -> (result: Result<Finalization, OmniError>)
    requires
        outcome == VisibleExactOutcome::Original ==> all_confirmed(payload.intended_delta.table_updates@),
    ensures
        closing_result(result, merge_closing(sidecar@, payload@, outcome)),
{
    match outcome {
        VisibleExactOutcome::Original => Ok(
            Finalization {
                kind: RecoveryKind::RolledForward,
                graph_commit_id: payload.lineage.graph_commit_id.clone(),
                outcomes: schema_apply_outcomes(&payload.intended_delta),
            },
        ),
        VisibleExactOutcome::RolledBack => close_rollback(
            "BranchMerge recovery sidecar",
            "' but no durable rollback audit outcomes",
            sidecar.operation_id.as_str(),
            &payload.rollback_graph_commit_id,
            &payload.rollback_audit_outcomes,
        ),
    }
}

/// What closes an exact schema apply whose end is visible.
pub open spec fn schema_closing(
    sidecar: RecoverySidecarModel,
    payload: RecoveryProtocolV7Model,
    outcome: VisibleExactOutcome,
) -> Result<FinalizationModel, OmniErrorModel> {
    match outcome {
        VisibleExactOutcome::Original => Ok(
            FinalizationModel {
                kind: RecoveryKind::RolledForward,
                graph_commit_id: payload.lineage.graph_commit_id,
                outcomes: slot_outcomes(payload.intended_delta.table_updates),
            },
        ),
        VisibleExactOutcome::RolledBack => rollback_closing(
            "SchemaApply sidecar"@,
            "' but no durable rollback audit outcomes"@,
            sidecar.operation_id,
            payload.rollback_graph_commit_id,
            payload.rollback_audit_outcomes,
        ),
    }
}

/// Closes an exact schema apply whose end is visible.
pub fn finalize_visible_v7_outcome(
    sidecar: &RecoverySidecar,
    payload: &RecoveryProtocolV7,
    outcome: VisibleExactOutcome,
) -> (result: Result<Finalization, OmniError>)
    requires
        outcome == VisibleExactOutcome::Original ==> all_confirmed(payload.intended_delta.table_updates@),
    ensures
        closing_result(result, schema_closing(sidecar@, payload@, outcome)),
{
    match outcome {
        VisibleExactOutcome::Original => Ok(
            Finalization {
                kind: RecoveryKind::RolledForward,
                graph_commit_id: payload.lineage.graph_commit_id.clone(),
                outcomes: schema_apply_outcomes(&payload.intended_delta),
            },
        ),
        VisibleExactOutcome::RolledBack => close_rollback(
            "SchemaApply sidecar",
            "' but no durable rollback audit outcomes",
            sidecar.operation_id.as_str(),
            &payload.rollback_graph_commit_id,
            &payload.rollback_audit_outcomes,
        ),
    }
}

/// What closes an exact ensure-indices run whose end is visible.
pub open spec fn index_closing(
    sidecar: RecoverySidecarModel,
    payload: RecoveryProtocolV8Model,
    outcome: VisibleExactOutcome,
) -> Result<FinalizationModel, OmniErrorModel> {
    match outcome {
        VisibleExactOutcome::Original => Ok(
            FinalizationModel {
                kind: RecoveryKind::RolledForward,
                graph_commit_id: payload.lineage.graph_commit_id,
                outcomes: slot_outcomes(payload.intended_delta.table_updates),
            },
        ),
        VisibleExactOutcome::RolledBack => rollback_closing(
            "EnsureIndices sidecar"@,
            "' but no durable rollback audit outcomes"@,
            sidecar.operation_id,
            payload.rollback_graph_commit_id,
            payload.rollback_audit_outcomes,
        ),
    }
}

/// Closes an exact ensure-indices run whose end is visible.
pub fn finalize_visible_v8_outcome(
    sidecar: &RecoverySidecar,
    payload: &RecoveryProtocolV8,
    outcome: VisibleExactOutcome,
) -> (result: Result<Finalization, OmniError>)
    requires
        outcome == VisibleExactOutcome::Original ==> all_confirmed(payload.intended_delta.table_updates@),
    ensures
        closing_result(result, index_closing(sidecar@, payload@, outcome)),
{
    match outcome {
        VisibleExactOutcome::Original => Ok(
            Finalization {
                kind: RecoveryKind::RolledForward,
                graph_commit_id: payload.lineage.graph_commit_id.clone(),
                outcomes: schema_apply_outcomes(&payload.intended_delta),
            },
        ),
        VisibleExactOutcome::RolledBack => close_rollback(
            "EnsureIndices sidecar",
            "' but no durable rollback audit outcomes",
            sidecar.operation_id.as_str(),
            &payload.rollback_graph_commit_id,
            &payload.rollback_audit_outcomes,
        ),
    }
}

/// Closes an ensure-indices run that fixed nothing but its rollback, once the
/// rollback is visible.
pub fn finalize_visible_ensure_indices_rollback(
    sidecar: &RecoverySidecar,
    payload: &RecoveryEnsureIndicesRollbackV6,
) -> (result: Result<Finalization, OmniError>)
    ensures
        closing_result(
            result,
            rollback_closing(
                "EnsureIndices recovery sidecar"@,
                "' but no durable rollback audit outcomes"@,
                sidecar@.operation_id,
                payload@.rollback_graph_commit_id,
                payload@.rollback_audit_outcomes,
            ),
        ),
{
    close_rollback(
        "EnsureIndices recovery sidecar",
        "' but no durable rollback audit outcomes",
        sidecar.operation_id.as_str(),
        &payload.rollback_graph_commit_id,
        &payload.rollback_audit_outcomes,
    )
}

/// The audit row that still has to be written for a closed attempt, if any. An
/// earlier pass may have written it and failed to delete the sidecar.
pub fn missing_audit_row(
    sidecar: &RecoverySidecar,
    closing: Finalization,
    rows: &Vec<RecoveryAuditRecord>,
    created_at: i64,
) -> (row: Option<RecoveryAuditRecord>)
    ensures
        row is None <==> exists|i: int|
            0 <= i < rows@.len() && records(
                (#[trigger] rows@[i])@,
                sidecar.operation_id@,
                closing.kind,
            ),
        row is Some ==> row->0@ == audit_of(
            sidecar@,
            closing.graph_commit_id@,
            closing.kind,
            views(closing.outcomes@),
            created_at,
        ),
{
    if already_recorded(rows, &sidecar.operation_id, closing.kind) {
        return None;
    }
    Some(
        audit_record(
            sidecar,
            closing.graph_commit_id,
            closing.kind,
            closing.outcomes,
            created_at,
        ),
    )
}

/// The identity of the schema that is live.
#[derive(Debug, PartialEq, Eq)]
pub struct SchemaStateIdentity {
    pub schema_identity_domain: String,
    pub schema_ir_hash: String,
    pub schema_identity_version: u32,
}

/// What a [`SchemaStateIdentity`] stands for.
pub struct SchemaStateIdentityModel {
    pub schema_identity_domain: Seq<char>,
    pub schema_ir_hash: Seq<char>,
    pub schema_identity_version: u32,
}

impl View for SchemaStateIdentity {
    type V = SchemaStateIdentityModel;

    open spec fn view(&self) -> SchemaStateIdentityModel {
        SchemaStateIdentityModel {
            schema_identity_domain: self.schema_identity_domain@,
            schema_ir_hash: self.schema_ir_hash@,
            schema_identity_version: self.schema_identity_version,
        }
    }
}

/// The place after the last slash of a text.
pub open spec fn after_last_slash(text: Seq<char>) -> int
    decreases text.len(),
{
    if text.len() == 0 || text.last() == '/' {
        text.len() as int
    } else {
        after_last_slash(text.drop_last())
    }
}

/// The operation that a sidecar file belongs to: its name without the ending, or
/// the whole text where it has another form.
pub open spec fn operation_of(uri: Seq<char>) -> Seq<char> {
    let name = uri.subrange(after_last_slash(uri), uri.len() as int);
    if ends_with(name, ".json"@) {
        name.subrange(0, name.len() - 5)
    } else {
        uri
    }
}

/// The place after the last slash lies within the text.
proof fn lemma_after_last_slash(text: Seq<char>)
    ensures
        0 <= after_last_slash(text) <= text.len(),
    decreases text.len(),
{
    if text.len() > 0 && text.last() != '/' {
        lemma_after_last_slash(text.drop_last());
    }
}

/// The operation that a sidecar file belongs to.
fn operation_id_of(uri: &str) -> (id: String)
    ensures
        id@ == operation_of(uri@),
{
    let length: usize = uri.unicode_len();
    let mut start: usize = length;
    assert(uri@.subrange(0, length as int) =~= uri@);
    while start > 0 && uri.get_char(start - 1) != '/'
        invariant
            start <= length,
            length == uri@.len(),
            after_last_slash(uri@) == after_last_slash(uri@.subrange(0, start as int)),
        decreases start,
    {
        assert(uri@.subrange(0, start as int).drop_last() =~= uri@.subrange(0, start - 1));
        start -= 1;
    }
    assert(after_last_slash(uri@) == start);
    let name: &str = uri.substring_char(start, length);
    proof {
        reveal_strlit(".json");
    }
    if has_suffix(name, ".json") {
        return name.substring_char(0, name.unicode_len() - 5).to_owned();
    }
    uri.to_owned()
}

/// Why a read-only open may not go on: a sidecar cannot be read while a schema
/// change is staged.
pub open spec fn unreadable_fault(
    uri: Seq<char>,
    reason: Seq<char>,
    schema_staged: bool,
) -> Option<OmniErrorModel> {
    if schema_staged {
        Some(
            OmniErrorModel::RecoveryRequired {
                operation_id: operation_of(uri),
                reason:
                    "read-only open found schema-staging artifacts alongside unparseable recovery sidecar '"@
                    + uri + "', so schema coherence cannot be proven: "@ + reason
                    + "; run a read-write open or inspect the sidecar"@,
            },
        )
    } else {
        None
    }
}

/// Checks that a sidecar that cannot be read does not stand in the way of a
/// read-only open.
pub fn check_unreadable_sidecar(uri: &str, reason: &str, schema_staged: bool) -> (result: Result<
    (),
    OmniError,
>)
    ensures
        match unreadable_fault(uri@, reason@, schema_staged) {
            Some(error) => result is Err && result->Err_0@ == error,
            None => result is Ok,
        },
{
    if !schema_staged {
        return Ok(());
    }
    let id: String = operation_id_of(uri);
    let message: String = cat5(
        "read-only open found schema-staging artifacts alongside unparseable recovery sidecar '",
        uri,
        "', so schema coherence cannot be proven: ",
        reason,
        "; run a read-write open or inspect the sidecar",
    );
    Err(OmniError::recovery_required(id.as_str(), message.as_str()))
}

/// How messages spell the end of an attempt.
pub open spec fn outcome_text(outcome: Option<VisibleExactOutcome>) -> Seq<char> {
    match outcome {
        None => "None"@,
        Some(VisibleExactOutcome::Original) => "Some(Original)"@,
        Some(VisibleExactOutcome::RolledBack) => "Some(RolledBack)"@,
    }
}

/// The end of an attempt, as messages spell it.
fn outcome_to_text(outcome: Option<VisibleExactOutcome>) -> (text: &'static str)
    ensures
        text@ == outcome_text(outcome),
{
    match outcome {
        None => "None",
        Some(VisibleExactOutcome::Original) => "Some(Original)",
        Some(VisibleExactOutcome::RolledBack) => "Some(RolledBack)",
    }
}

/// How messages spell a schema identity.
pub open spec fn identity_text(domain: Seq<char>, hash: Seq<char>, version: u32) -> Seq<char> {
    "("@ + domain + ", "@ + hash + ", v"@ + decimal(version as nat) + ")"@
}

/// A schema identity, as messages spell it.
fn identity_to_text(domain: &str, hash: &str, version: u32) -> (text: String)
    ensures
        text@ == identity_text(domain@, hash@, version),
{
    let digits: String = decimal_text(version as u64);
    cat7("(", domain, ", ", hash, ", v", digits.as_str(), ")")
}

/// What the recovery of an operation being needed is reported as.
pub open spec fn required(operation_id: Seq<char>, reason: Seq<char>) -> OmniErrorModel {
    OmniErrorModel::RecoveryRequired { operation_id, reason }
}

/// Why a schema apply of an earlier generation stands in the way of a read-only
/// open. Only one that is published and whose schema is live does not.
pub open spec fn legacy_schema_fault(
    sidecar: RecoverySidecarModel,
    live: Result<SchemaStateIdentity, OmniError>,
) -> Option<OmniErrorModel> {
    let id = sidecar.operation_id;
    let unproven = required(
        id,
        "read-only open cannot prove schema coherence for an active or incomplete legacy SchemaApply recovery intent; run a read-write open to recover it"@,
    );
    if sidecar.schema_version != SCHEMA_APPLY_CONFIRMATION_SCHEMA_VERSION
        || !sidecar.schema_apply_manifest_published {
        Some(unproven)
    } else {
        match sidecar.schema_apply_target_schema_ir_hash {
            None => Some(
                required(id, "SchemaApply sidecar '"@ + id + "' has no target schema identity"@),
            ),
            Some(target) => match live {
                Err(error) => Some(required(id, error_text(error@))),
                Ok(identity) => if identity.schema_ir_hash@ == target {
                    None
                } else {
                    Some(unproven)
                },
            },
        }
    }
}

/// Why an exact schema apply stands in the way of a read-only open: the live schema
/// is not the one that belongs to the visible manifest.
pub open spec fn exact_schema_fault(
    sidecar: RecoverySidecarModel,
    payload: RecoveryProtocolV7Model,
    outcome: Result<Option<VisibleExactOutcome>, OmniError>,
    live: Result<SchemaStateIdentity, OmniError>,
) -> Option<OmniErrorModel> {
    let id = sidecar.operation_id;
    let authority = payload.authority;
    match (outcome, live) {
        (Err(error), _) => Some(required(id, error_text(error@))),
        (Ok(_), Err(error)) => Some(required(id, error_text(error@))),
        (Ok(ended), Ok(identity)) => {
            let expected = if ended == Some(VisibleExactOutcome::Original) {
                payload.target_schema_ir_hash
            } else {
                authority.schema_ir_hash
            };
            if identity.schema_ir_hash@ != expected || identity.schema_identity_domain@
                != authority.schema_identity_domain || identity.schema_identity_version
                != authority.schema_identity_version {
                Some(
                    required(
                        id,
                        "read-only open found SchemaApply manifest outcome "@ + outcome_text(
                            ended,
                        ) + " but live schema authority "@ + identity_text(
                            identity.schema_identity_domain@,
                            identity.schema_ir_hash@,
                            identity.schema_identity_version,
                        ) + " does not match expected "@ + identity_text(
                            authority.schema_identity_domain,
                            expected,
                            authority.schema_identity_version,
                        ) + "; run a read-write open to finish recovery"@,
                    ),
                )
            } else {
                None
            }
        },
    }
}

/// Why a sidecar stands in the way of a read-only open, if it does.
pub open spec fn read_only_fault(
    sidecar: RecoverySidecarModel,
    outcome: Result<Option<VisibleExactOutcome>, OmniError>,
    live: Result<SchemaStateIdentity, OmniError>,
) -> Option<OmniErrorModel> {
    if sidecar.writer_kind != SidecarKind::SchemaApply {
        None
    } else {
        match sidecar.protocol_v7 {
            None => legacy_schema_fault(sidecar, live),
            Some(payload) => exact_schema_fault(sidecar, payload, outcome, live),
        }
    }
}

/// Checks a schema apply of an earlier generation.
fn check_legacy_schema(sidecar: &RecoverySidecar, live: &Result<SchemaStateIdentity, OmniError>) -> (result:
    Result<(), OmniError>)
    ensures
        match legacy_schema_fault(sidecar@, *live) {
            Some(error) => result is Err && result->Err_0@ == error,
            None => result is Ok,
        },
{
    let id: &str = sidecar.operation_id.as_str();
    if sidecar.schema_version == SCHEMA_APPLY_CONFIRMATION_SCHEMA_VERSION
        && sidecar.schema_apply_manifest_published {
        match &sidecar.schema_apply_target_schema_ir_hash {
            None => {
                let message: String = cat3(
                    "SchemaApply sidecar '",
                    id,
                    "' has no target schema identity",
                );
                return Err(OmniError::recovery_required(id, message.as_str()));
            },
            Some(target) => match live {
                Err(error) => {
                    let message: String = error.to_text();
                    return Err(OmniError::recovery_required(id, message.as_str()));
                },
                Ok(identity) => {
                    if identity.schema_ir_hash == *target {
                        return Ok(());
                    }
                },
            },
        }
    }
    Err(
        OmniError::recovery_required(
            id,
            "read-only open cannot prove schema coherence for an active or incomplete legacy SchemaApply recovery intent; run a read-write open to recover it",
        ),
    )
}

/// Checks an exact schema apply.
fn check_exact_schema(
    sidecar: &RecoverySidecar,
    payload: &RecoveryProtocolV7,
    outcome: &Result<Option<VisibleExactOutcome>, OmniError>,
    live: &Result<SchemaStateIdentity, OmniError>,
) -> (result: Result<(), OmniError>)
    ensures
        match exact_schema_fault(sidecar@, payload@, *outcome, *live) {
            Some(error) => result is Err && result->Err_0@ == error,
            None => result is Ok,
        },
{
    let id: &str = sidecar.operation_id.as_str();
    let ended: Option<VisibleExactOutcome> = match outcome {
        Ok(ended) => *ended,
        Err(error) => {
            let message: String = error.to_text();
            return Err(OmniError::recovery_required(id, message.as_str()));
        },
    };
    let identity: &SchemaStateIdentity = match live {
        Ok(identity) => identity,
        Err(error) => {
            let message: String = error.to_text();
            return Err(OmniError::recovery_required(id, message.as_str()));
        },
    };
    let original: bool = match ended {
        Some(VisibleExactOutcome::Original) => true,
        _ => false,
    };
    let expected: &String = if original {
        &payload.target_schema_ir_hash
    } else {
        &payload.authority.schema_ir_hash
    };
    if identity.schema_ir_hash == *expected && identity.schema_identity_domain
        == payload.authority.schema_identity_domain && identity.schema_identity_version
        == payload.authority.schema_identity_version {
        return Ok(());
    }
    let actual_text: String = identity_to_text(
        identity.schema_identity_domain.as_str(),
        identity.schema_ir_hash.as_str(),
        identity.schema_identity_version,
    );
    let expected_text: String = identity_to_text(
        payload.authority.schema_identity_domain.as_str(),
        expected.as_str(),
        payload.authority.schema_identity_version,
    );
    let message: String = cat7(
        "read-only open found SchemaApply manifest outcome ",
        outcome_to_text(ended),
        " but live schema authority ",
        actual_text.as_str(),
        " does not match expected ",
        expected_text.as_str(),
        "; run a read-write open to finish recovery",
    );
    Err(OmniError::recovery_required(id, message.as_str()))
}

/// Checks that a pending sidecar lets a read-only open pair the visible manifest
/// with the live schema. `outcome` is how an exact schema apply ended and `live`
/// the identity of the live schema, each as far as it could be read.
pub fn ensure_read_only_schema_coherent(
    sidecar: &RecoverySidecar,
    outcome: &Result<Option<VisibleExactOutcome>, OmniError>,
    live: &Result<SchemaStateIdentity, OmniError>,
) -> (result: Result<(), OmniError>)
    ensures
        match read_only_fault(sidecar@, *outcome, *live) {
            Some(error) => result is Err && result->Err_0@ == error,
            None => result is Ok,
        },
{
    if sidecar.writer_kind != SidecarKind::SchemaApply {
        return Ok(());
    }
    match &sidecar.protocol_v7 {
        None => check_legacy_schema(sidecar, live),
        Some(payload) => check_exact_schema(sidecar, payload, outcome, live),
    }
}

} // verus!
