//! What the confirmation of an attempt accepts, and what it records.

use vstd::prelude::*;

use crate::confirm::branch_merge::{
    merge_confirmation, merge_effect_fault, outputs_match, slot_fault,
};
use crate::confirm::common::{confirmed_pins, confirmed_slots, keys_match};
use crate::confirm::ensure_indices::{index_confirmation, index_effect_fault};
use crate::confirm::mutation_load::{occ_confirmation, occ_effect_fault};
use crate::confirm::schema_apply::{schema_confirmation, schema_effect_achieved};
use crate::history::{built_index, merge_proof};
use crate::identity::TableIdentity;
use crate::laws::classifying::{forked_at, rewrite_of, rewritten_by};
use crate::lookup::{find_by_identity, identities, within};
use crate::process::indices::TargetRef;
use crate::publish::{SubTableUpdate, SubTableUpdateModel};
use crate::sidecar::{
    BranchIdentifierModel, RecoveryBranchMergeEffectKindModel, RecoveryBranchMergeEffectModel,
    RecoveryEffectPhase, RecoveryEnsureIndicesEffectModel, RecoveryManifestDeltaModel,
    RecoverySchemaApplyEffectModel, RecoverySidecarModel, RecoveryTableEffectModel,
    RecoveryTableUpdateSlot, RecoveryTableUpdateSlotModel, SidecarTablePinModel,
    StagedTransactionIdentityModel,
};

verus! {

/// The update that a writer reached for a table.
pub open spec fn reached(
    updates: Seq<SubTableUpdateModel>,
    identity: TableIdentity,
) -> Option<SubTableUpdateModel> {
    find_by_identity::<SubTableUpdate>(updates, identity)
}

/// Whether pins are filled: each as it was, with the version that was reached for it.
pub open spec fn pins_filled(
    before: Seq<SidecarTablePinModel>,
    after: Seq<SidecarTablePinModel>,
    updates: Seq<SubTableUpdateModel>,
) -> bool {
    &&& after.len() == before.len()
    &&& forall|i: int|
        0 <= i < before.len() ==> {
            let update = reached(updates, before[i].identity);
            &&& (#[trigger] after[i]).identity == before[i].identity
            &&& after[i].table_key == before[i].table_key
            &&& after[i].table_path == before[i].table_path
            &&& after[i].expected_version == before[i].expected_version
            &&& after[i].post_commit_pin == before[i].post_commit_pin
            &&& after[i].table_branch == before[i].table_branch
            &&& update is Some ==> after[i].confirmed_version == Some(update->0.table_version)
            &&& update is None ==> after[i].confirmed_version == before[i].confirmed_version
        }
}

/// Whether slots are filled: each as it was, with what was reached for it, in every
/// field.
pub open spec fn slots_filled(
    before: Seq<RecoveryTableUpdateSlotModel>,
    after: Seq<RecoveryTableUpdateSlotModel>,
    updates: Seq<SubTableUpdateModel>,
) -> bool {
    &&& after.len() == before.len()
    &&& forall|i: int|
        0 <= i < before.len() ==> {
            let update = reached(updates, before[i].identity);
            let confirmed = after[i].confirmed->0;
            &&& (#[trigger] after[i]).identity == before[i].identity
            &&& after[i].table_key == before[i].table_key
            &&& after[i].expected_version == before[i].expected_version
            &&& after[i].table_branch == before[i].table_branch
            &&& update is Some ==> {
                &&& after[i].confirmed is Some
                &&& confirmed.table_version == update->0.table_version
                &&& confirmed.table_branch == update->0.table_branch
                &&& confirmed.row_count == update->0.row_count
                &&& confirmed.version_metadata == update->0.version_metadata
            }
            &&& update is None ==> after[i].confirmed == before[i].confirmed
        }
}

/// A confirmation puts what was reached for each table into its pin and its slot, and
/// changes nothing else of them.
pub proof fn lemma_what_a_confirmation_fills(
    pins: Seq<SidecarTablePinModel>,
    slots: Seq<RecoveryTableUpdateSlotModel>,
    updates: Seq<SubTableUpdateModel>,
)
    ensures
        pins_filled(pins, confirmed_pins(pins, updates), updates),
        slots_filled(slots, confirmed_slots(slots, updates), updates),
{
}

/// Whether only the tables and one payload of a sidecar changed.
pub open spec fn same_attempt(before: RecoverySidecarModel, after: RecoverySidecarModel) -> bool {
    &&& after.schema_version == before.schema_version
    &&& after.operation_id == before.operation_id
    &&& after.started_at == before.started_at
    &&& after.branch == before.branch
    &&& after.actor_id == before.actor_id
    &&& after.writer_kind == before.writer_kind
    &&& after.merge_source_commit_id == before.merge_source_commit_id
    &&& after.additional_registrations == before.additional_registrations
    &&& after.tombstones == before.tombstones
    &&& after.schema_apply_manifest_published == before.schema_apply_manifest_published
    &&& after.schema_apply_target_schema_ir_hash == before.schema_apply_target_schema_ir_hash
    &&& after.ensure_indices_rollback_v6 == before.ensure_indices_rollback_v6
}

/// Whether a delta is filled: its slots are, and nothing else of it changed.
pub open spec fn delta_filled(
    before: RecoveryManifestDeltaModel,
    after: RecoveryManifestDeltaModel,
    updates: Seq<SubTableUpdateModel>,
) -> bool {
    &&& slots_filled(before.table_updates, after.table_updates, updates)
    &&& after.registrations == before.registrations
    &&& after.renames == before.renames
    &&& after.tombstones == before.tombstones
}

/// A confirmed mutation or load is the armed one with what was reached and committed
/// filled in.
pub proof fn lemma_what_a_confirmed_mutation_is(
    root: Seq<char>,
    sidecar: RecoverySidecarModel,
    updates: Seq<SubTableUpdateModel>,
    committed: Map<TableIdentity, StagedTransactionIdentityModel>,
)
    requires
        occ_confirmation(root, sidecar, updates, committed) is Ok,
    ensures
        ({
            let after = occ_confirmation(root, sidecar, updates, committed)->Ok_0;
            let old_payload = sidecar.protocol_v3->0;
            let payload = after.protocol_v3->0;
            &&& same_attempt(sidecar, after)
            &&& pins_filled(sidecar.tables, after.tables, updates)
            &&& after.protocol_v4 == sidecar.protocol_v4
            &&& after.protocol_v7 == sidecar.protocol_v7
            &&& after.protocol_v8 == sidecar.protocol_v8
            &&& sidecar.protocol_v3 is Some
            &&& after.protocol_v3 is Some
            &&& old_payload.effect_phase == RecoveryEffectPhase::Armed
            &&& payload.effect_phase == RecoveryEffectPhase::EffectsConfirmed
            &&& payload.authority == old_payload.authority
            &&& payload.lineage == old_payload.lineage
            &&& payload.rollback_graph_commit_id == old_payload.rollback_graph_commit_id
            &&& payload.rollback_audit_outcomes == old_payload.rollback_audit_outcomes
            &&& delta_filled(old_payload.intended_delta, payload.intended_delta, updates)
            &&& payload.effects.len() == old_payload.effects.len()
            &&& forall|i: int|
                0 <= i < payload.effects.len() ==> {
                    let before = old_payload.effects[i];
                    &&& (#[trigger] payload.effects[i]).identity == before.identity
                    &&& payload.effects[i].table_key == before.table_key
                    &&& payload.effects[i].planned_transaction == before.planned_transaction
                    &&& payload.effects[i].confirmed_transaction == Some(
                        committed[before.identity],
                    )
                }
        }),
{
}

/// A confirmed schema apply is the armed one with what was reached and committed filled
/// in.
pub proof fn lemma_what_a_confirmed_schema_apply_is(
    root: Seq<char>,
    sidecar: RecoverySidecarModel,
    updates: Seq<SubTableUpdateModel>,
    committed: Map<TableIdentity, StagedTransactionIdentityModel>,
)
    requires
        schema_confirmation(root, sidecar, updates, committed) is Ok,
    ensures
        ({
            let after = schema_confirmation(root, sidecar, updates, committed)->Ok_0;
            let old_payload = sidecar.protocol_v7->0;
            let payload = after.protocol_v7->0;
            &&& same_attempt(sidecar, after)
            &&& pins_filled(sidecar.tables, after.tables, updates)
            &&& after.protocol_v3 == sidecar.protocol_v3
            &&& after.protocol_v4 == sidecar.protocol_v4
            &&& after.protocol_v8 == sidecar.protocol_v8
            &&& sidecar.protocol_v7 is Some
            &&& after.protocol_v7 is Some
            &&& old_payload.effect_phase == RecoveryEffectPhase::Armed
            &&& payload.effect_phase == RecoveryEffectPhase::EffectsConfirmed
            &&& payload.authority == old_payload.authority
            &&& payload.lineage == old_payload.lineage
            &&& payload.rollback_graph_commit_id == old_payload.rollback_graph_commit_id
            &&& payload.rollback_audit_outcomes == old_payload.rollback_audit_outcomes
            &&& payload.target_schema_ir_hash == old_payload.target_schema_ir_hash
            &&& delta_filled(old_payload.intended_delta, payload.intended_delta, updates)
            &&& payload.effects.len() == old_payload.effects.len()
            &&& forall|i: int|
                0 <= i < payload.effects.len() ==> {
                    let before = old_payload.effects[i];
                    &&& (#[trigger] payload.effects[i]).identity == before.identity
                    &&& payload.effects[i].table_key == before.table_key
                    &&& payload.effects[i].kind is FirstTouchDataset <==> before.kind
                        is FirstTouchDataset
                    &&& rewrite_of(payload.effects[i]) == rewrite_of(before)
                    &&& rewritten_by(payload.effects[i]) == Some(committed[before.identity])
                }
        }),
{
}

/// A confirmed ensure-indices run is the armed one with what was reached, committed and
/// forked filled in.
pub proof fn lemma_what_a_confirmed_index_run_is(
    root: Seq<char>,
    sidecar: RecoverySidecarModel,
    updates: Seq<SubTableUpdateModel>,
    committed: Map<TableIdentity, StagedTransactionIdentityModel>,
    refs: Map<TableIdentity, BranchIdentifierModel>,
    targets: Seq<Option<TargetRef>>,
)
    requires
        index_confirmation(root, sidecar, updates, committed, refs, targets) is Ok,
    ensures
        ({
            let after = index_confirmation(
                root,
                sidecar,
                updates,
                committed,
                refs,
                targets,
            )->Ok_0;
            let old_payload = sidecar.protocol_v8->0;
            let payload = after.protocol_v8->0;
            &&& same_attempt(sidecar, after)
            &&& pins_filled(sidecar.tables, after.tables, updates)
            &&& after.protocol_v3 == sidecar.protocol_v3
            &&& after.protocol_v4 == sidecar.protocol_v4
            &&& after.protocol_v7 == sidecar.protocol_v7
            &&& sidecar.protocol_v8 is Some
            &&& after.protocol_v8 is Some
            &&& old_payload.effect_phase == RecoveryEffectPhase::Armed
            &&& payload.effect_phase == RecoveryEffectPhase::EffectsConfirmed
            &&& payload.authority == old_payload.authority
            &&& payload.lineage == old_payload.lineage
            &&& payload.rollback_graph_commit_id == old_payload.rollback_graph_commit_id
            &&& payload.rollback_audit_outcomes == old_payload.rollback_audit_outcomes
            &&& delta_filled(old_payload.intended_delta, payload.intended_delta, updates)
            &&& payload.effects.len() == old_payload.effects.len()
            &&& forall|i: int|
                0 <= i < payload.effects.len() ==> {
                    let before = old_payload.effects[i];
                    let branch = (#[trigger] payload.effects[i]).confirmed_branch_identifier;
                    &&& payload.effects[i].identity == before.identity
                    &&& payload.effects[i].table_key == before.table_key
                    &&& payload.effects[i].planned_transaction == before.planned_transaction
                    &&& payload.effects[i].source_fork_version == before.source_fork_version
                    &&& payload.effects[i].confirmed_transaction == Some(
                        committed[before.identity],
                    )
                    &&& branch is Some <==> refs.contains_key(before.identity)
                    &&& branch is Some ==> branch->0 == refs[before.identity]
                }
        }),
{
}

/// The head that a merge confirmed for a table, once it did.
pub open spec fn confirmed_head(effect: RecoveryBranchMergeEffectModel) -> Option<u64> {
    match effect.kind {
        RecoveryBranchMergeEffectKindModel::MultiCommitHead { confirmed_version, .. } =>
            confirmed_version,
        RecoveryBranchMergeEffectKindModel::RefOnlyFork { .. } => None,
    }
}

/// The transactions that a merge planned for a table.
pub open spec fn planned_chain(effect: RecoveryBranchMergeEffectModel) -> Seq<
    StagedTransactionIdentityModel,
> {
    match effect.kind {
        RecoveryBranchMergeEffectKindModel::MultiCommitHead { planned_transactions, .. } =>
            planned_transactions,
        RecoveryBranchMergeEffectKindModel::RefOnlyFork { .. } => Seq::empty(),
    }
}

/// A confirmed branch merge is the armed one with what was reached and forked filled
/// in.
pub proof fn lemma_what_a_confirmed_merge_is(
    root: Seq<char>,
    sidecar: RecoverySidecarModel,
    updates: Seq<SubTableUpdateModel>,
    refs: Map<TableIdentity, BranchIdentifierModel>,
    targets: Seq<Option<TargetRef>>,
)
    requires
        merge_confirmation(root, sidecar, updates, refs, targets) is Ok,
    ensures
        ({
            let after = merge_confirmation(root, sidecar, updates, refs, targets)->Ok_0;
            let old_payload = sidecar.protocol_v4->0;
            let payload = after.protocol_v4->0;
            &&& same_attempt(sidecar, after)
            &&& pins_filled(sidecar.tables, after.tables, updates)
            &&& after.protocol_v3 == sidecar.protocol_v3
            &&& after.protocol_v7 == sidecar.protocol_v7
            &&& after.protocol_v8 == sidecar.protocol_v8
            &&& sidecar.protocol_v4 is Some
            &&& after.protocol_v4 is Some
            &&& old_payload.effect_phase == RecoveryEffectPhase::Armed
            &&& payload.effect_phase == RecoveryEffectPhase::EffectsConfirmed
            &&& payload.authority == old_payload.authority
            &&& payload.lineage == old_payload.lineage
            &&& payload.rollback_graph_commit_id == old_payload.rollback_graph_commit_id
            &&& payload.rollback_audit_outcomes == old_payload.rollback_audit_outcomes
            &&& delta_filled(old_payload.intended_delta, payload.intended_delta, updates)
            &&& payload.effects.len() == old_payload.effects.len()
            &&& forall|i: int|
                0 <= i < payload.effects.len() ==> {
                    let before = old_payload.effects[i];
                    let now = #[trigger] payload.effects[i];
                    let branch = crate::laws::classifying::confirmed_ref(now);
                    &&& now.identity == before.identity
                    &&& now.table_key == before.table_key
                    &&& now.kind is MultiCommitHead <==> before.kind is MultiCommitHead
                    &&& forked_at(now) == forked_at(before)
                    &&& planned_chain(now) == planned_chain(before)
                    &&& now.kind is MultiCommitHead ==> confirmed_head(now) == Some(
                        reached(updates, before.identity)->0.table_version,
                    )
                    &&& branch is Some <==> refs.contains_key(before.identity)
                    &&& branch is Some ==> branch->0 == refs[before.identity]
                }
        }),
{
}

/// What a mutation or load committed to a table is accepted exactly where it is the
/// planned transaction, and reached the announced version on the pinned branch, under
/// one alias.
pub proof fn lemma_when_a_commit_is_accepted(
    operation_id: Seq<char>,
    pin: SidecarTablePinModel,
    effect: RecoveryTableEffectModel,
    update: SubTableUpdateModel,
    committed: StagedTransactionIdentityModel,
)
    ensures
        occ_effect_fault(operation_id, pin, effect, update, committed) is None <==> {
            &&& committed.read_version == effect.planned_transaction.read_version
            &&& committed.uuid == effect.planned_transaction.uuid
            &&& update.table_version == pin.post_commit_pin
            &&& update.table_branch == pin.table_branch
            &&& update.table_key == effect.table_key
            &&& pin.table_key == effect.table_key
        },
{
}

/// What a schema apply committed to a table is accepted exactly where it is the planned
/// transaction, and reached the announced version on the pinned branch, under one
/// alias.
pub proof fn lemma_when_a_rewrite_is_accepted(
    pin: SidecarTablePinModel,
    effect: RecoverySchemaApplyEffectModel,
    update: SubTableUpdateModel,
    committed: StagedTransactionIdentityModel,
)
    ensures
        schema_effect_achieved(pin, effect, update, committed) <==> {
            &&& committed.read_version == rewrite_of(effect).read_version
            &&& committed.uuid == rewrite_of(effect).uuid
            &&& update.table_version == pin.post_commit_pin
            &&& update.table_branch == pin.table_branch
            &&& update.table_key == effect.table_key
            &&& pin.table_key == effect.table_key
        },
{
}

/// What an ensure-indices run committed to a table is accepted exactly where it is the
/// planned transaction, reached the announced version on the pinned branch, under one
/// alias, the branch is there with that head, the commit built an index, and a forked
/// branch starts where it was forked and is the one that the writer names.
pub proof fn lemma_when_an_index_commit_is_accepted(
    operation_id: Seq<char>,
    pin: SidecarTablePinModel,
    effect: RecoveryEnsureIndicesEffectModel,
    update: SubTableUpdateModel,
    committed: StagedTransactionIdentityModel,
    refs: Map<TableIdentity, BranchIdentifierModel>,
    target: Option<TargetRef>,
)
    ensures
        index_effect_fault(operation_id, pin, effect, update, committed, refs, target) is None <==> {
            &&& committed.read_version == effect.planned_transaction.read_version
            &&& committed.uuid == effect.planned_transaction.uuid
            &&& update.table_version == pin.post_commit_pin
            &&& update.table_branch == pin.table_branch
            &&& update.table_key == effect.table_key
            &&& pin.table_key == effect.table_key
            &&& target is Some
            &&& target->0.head.version == update.table_version
            &&& effect.planned_transaction.read_version < u64::MAX
            &&& built_index(
                target->0.head.history,
                target->0.head.version,
                effect.planned_transaction,
            )
            &&& effect.source_fork_version is Some ==> target->0.parent_version
                == effect.source_fork_version && target->0.branch_identifier@
                == refs[effect.identity]
        },
{
}

/// What a branch merge did to a table is accepted exactly where the branch is there with
/// the head that was reached, under one alias; a forked branch starts where it was
/// forked and is the one that the writer names; a table that is only forked stands at
/// that version; and of a data table all planned transactions are at the head, and
/// nothing else.
pub proof fn lemma_when_a_merge_is_accepted(
    operation_id: Seq<char>,
    pin: SidecarTablePinModel,
    effect: RecoveryBranchMergeEffectModel,
    update: SubTableUpdateModel,
    refs: Map<TableIdentity, BranchIdentifierModel>,
    target: Option<TargetRef>,
)
    ensures
        merge_effect_fault(operation_id, pin, effect, update, refs, target) is None <==> {
            let planned = planned_chain(effect);
            let proven = merge_proof(
                target->0.head.history,
                target->0.head.version,
                planned,
                pin.expected_version,
                effect.table_key,
            );
            &&& update.table_key == effect.table_key
            &&& pin.table_key == effect.table_key
            &&& target is Some
            &&& target->0.head.version == update.table_version
            &&& forked_at(effect) is Some ==> target->0.parent_version == forked_at(effect)
                && target->0.branch_identifier@ == refs[effect.identity]
            &&& effect.kind is RefOnlyFork ==> Some(update.table_version) == forked_at(effect)
            &&& effect.kind is MultiCommitHead ==> {
                &&& planned.last().read_version < update.table_version
                &&& proven is Ok
                &&& proven->Ok_0.effect_ownership is OwnAtHead
                &&& proven->Ok_0.full_effect_at_head
                &&& proven->Ok_0.unsafe_reason is None
            }
        },
{
}

/// The output of a branch merge is accepted exactly where it is on the branch of its
/// slot, under its alias.
pub proof fn lemma_when_a_merge_output_is_accepted(
    operation_id: Seq<char>,
    slot: RecoveryTableUpdateSlotModel,
    update: SubTableUpdateModel,
)
    ensures
        slot_fault(operation_id, slot, update) is None <==> update.table_key == slot.table_key
            && update.table_branch == slot.table_branch,
{
}

/// Whether an update is of a table.
pub open spec fn updated(updates: Seq<SubTableUpdateModel>, identity: TableIdentity) -> bool {
    exists|i: int| 0 <= i < updates.len() && (#[trigger] updates[i]).identity == identity
}

/// Whether no table is updated twice.
pub open spec fn updated_once(updates: Seq<SubTableUpdateModel>) -> bool {
    forall|i: int, j: int|
        0 <= i < j < updates.len() ==> (#[trigger] updates[i]).identity != (
        #[trigger] updates[j]).identity
}

/// A confirmation names the right tables exactly where every planned table was updated
/// once and no other, and one transaction was committed for each.
pub proof fn lemma_when_a_confirmation_names_every_table(
    planned: Seq<TableIdentity>,
    updates: Seq<SubTableUpdateModel>,
    committed: Map<TableIdentity, StagedTransactionIdentityModel>,
)
    ensures
        keys_match(planned, updates, committed) <==> {
            &&& updated_once(updates)
            &&& forall|identity: TableIdentity| #[trigger]
                planned.contains(identity) <==> updated(updates, identity)
            &&& committed.dom().len() == updates.len()
            &&& forall|identity: TableIdentity| #[trigger]
                planned.contains(identity) ==> committed.dom().contains(identity)
        },
{
    let list = identities::<SubTableUpdate>(updates);
    lemma_updated(planned, updates);
    if keys_match(planned, updates, committed) {
        assert forall|identity: TableIdentity| #[trigger] planned.contains(identity) implies
            committed.dom().contains(identity) by {
            let i = choose|i: int| 0 <= i < planned.len() && planned[i] == identity;
            assert(committed.contains_key(planned[i]));
        }
    }
    if forall|identity: TableIdentity| #[trigger]
        planned.contains(identity) ==> committed.dom().contains(identity) {
        assert forall|i: int| 0 <= i < planned.len() implies committed.contains_key(
            #[trigger] planned[i],
        ) by {
            assert(planned.contains(planned[i]));
        }
    }
}

proof fn lemma_updated(planned: Seq<TableIdentity>, updates: Seq<SubTableUpdateModel>)
    ensures
        identities::<SubTableUpdate>(updates).no_duplicates() <==> updated_once(updates),
        (within(identities::<SubTableUpdate>(updates), planned) && within(
            planned,
            identities::<SubTableUpdate>(updates),
        )) <==> (forall|identity: TableIdentity| #[trigger]
            planned.contains(identity) <==> updated(updates, identity)),
{
    let list = identities::<SubTableUpdate>(updates);
    if list.no_duplicates() {
        assert forall|i: int, j: int| 0 <= i < j < updates.len() implies (
        #[trigger] updates[i]).identity != (#[trigger] updates[j]).identity by {
            assert(list[i] != list[j]);
        }
    }
    assert forall|identity: TableIdentity| updated(updates, identity) <==> #[trigger] list.contains(
        identity,
    ) by {
        if updated(updates, identity) {
            let i = choose|i: int|
                0 <= i < updates.len() && (#[trigger] updates[i]).identity == identity;
            assert(list[i] == identity);
        }
        if list.contains(identity) {
            let i = choose|i: int| 0 <= i < list.len() && list[i] == identity;
            assert(updates[i].identity == identity);
        }
    }
    if within(list, planned) && within(planned, list) {
        assert forall|identity: TableIdentity| #[trigger] planned.contains(identity) <==> updated(
            updates,
            identity,
        ) by {
            if planned.contains(identity) {
                let i = choose|i: int| 0 <= i < planned.len() && planned[i] == identity;
                assert(list.contains(planned[i]));
            }
            if updated(updates, identity) {
                assert(list.contains(identity));
                let i = choose|i: int| 0 <= i < list.len() && list[i] == identity;
                assert(planned.contains(list[i]));
            }
        }
    }
    if forall|identity: TableIdentity| #[trigger]
        planned.contains(identity) <==> updated(updates, identity) {
        assert forall|i: int| 0 <= i < list.len() implies planned.contains(#[trigger] list[i]) by {
            assert(list.contains(list[i]));
        }
        assert forall|i: int| 0 <= i < planned.len() implies list.contains(
            #[trigger] planned[i],
        ) by {
            assert(planned.contains(planned[i]));
        }
    }
}

/// The outputs of a branch merge are complete exactly where every slot was updated once
/// and no other table was.
pub proof fn lemma_when_merge_outputs_are_complete(
    slots: Seq<RecoveryTableUpdateSlotModel>,
    updates: Seq<SubTableUpdateModel>,
)
    ensures
        outputs_match(slots, updates) <==> {
            &&& updated_once(updates)
            &&& forall|identity: TableIdentity| #[trigger]
                identities::<RecoveryTableUpdateSlot>(slots).contains(identity) <==> updated(
                    updates,
                    identity,
                )
        },
{
    lemma_updated(identities::<RecoveryTableUpdateSlot>(slots), updates);
}

} // verus!
