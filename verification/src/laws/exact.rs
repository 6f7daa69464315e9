//! When the confirmation of an exact attempt succeeds.

use vstd::prelude::*;

use crate::confirm::branch_merge::{
    merge_confirmation, merge_confirmed, merge_effect_faults, outputs_match, slot_faults,
};
use crate::confirm::common::{achieved, confirmed_pins, confirmed_slots, keys_match, update_of};
use crate::confirm::ensure_indices::{index_confirmation, index_confirmed, index_effect_faults};
use crate::confirm::schema_apply::{schema_confirmation, schema_confirmed, schema_effect_faults};
use crate::identity::TableIdentity;
use crate::laws::confirming::{lemma_same_pins, lemma_same_place};
use crate::lookup::{
    aliases, find_by_identity, first_place, identities, lemma_has_first_place, planned_uuids,
};
use crate::process::indices::TargetRef;
use crate::publish::{SubTableUpdate, SubTableUpdateModel};
use crate::shape::branch_merge::{
    branch_merge_v4_defect, chain_defect, chain_of, slot_findings, step_findings, uuids_before,
};
use crate::shape::defect::{first_defect, lemma_all_sound, lemma_no_defect, lemma_sound_pins};
use crate::shape::ensure_indices::ensure_indices_v8_defect;
use crate::shape::schema_apply::{
    registration_findings, registrations_match, rename_findings, restored_aliases,
    schema_apply_v7_fault, table_set_consistent,
};
use crate::shape::validate::shape_fault;
use crate::sidecar::{
    BranchIdentifierModel, RecoveryBranchMergeEffect, RecoveryEffectPhase,
    RecoveryEnsureIndicesEffect, RecoverySchemaApplyEffect, RecoverySidecarModel,
    RecoveryTableUpdateSlot, RecoveryTableUpdateSlotModel, SidecarTablePin, SidecarTablePinModel,
    SidecarTableRegistration, StagedTransactionIdentityModel,
};
use crate::store::uri_of;

verus! {

/// What a confirmation puts into one pin and its output slot.
pub proof fn lemma_output(
    pins: Seq<SidecarTablePinModel>,
    slots: Seq<RecoveryTableUpdateSlotModel>,
    updates: Seq<SubTableUpdateModel>,
    i: int,
)
    requires
        0 <= i < pins.len(),
        identities::<SidecarTablePin>(pins).no_duplicates(),
        identities::<RecoveryTableUpdateSlot>(slots).contains(pins[i].identity),
        identities::<SubTableUpdate>(updates).contains(pins[i].identity),
    ensures
        ({
            let d = pins[i].identity;
            let slot = find_by_identity::<RecoveryTableUpdateSlot>(slots, d);
            let update = update_of(updates, d);
            &&& slot is Some
            &&& update is Some
            &&& find_by_identity::<SidecarTablePin>(pins, d) == Some(pins[i])
            &&& confirmed_pins(pins, updates)[i] == (SidecarTablePinModel {
                confirmed_version: Some(update->0.table_version),
                ..pins[i]
            })
            &&& find_by_identity::<RecoveryTableUpdateSlot>(confirmed_slots(slots, updates), d)
                == Some(
                RecoveryTableUpdateSlotModel { confirmed: Some(achieved(update->0)), ..slot->0 },
            )
        }),
{
    let d = pins[i].identity;
    let filled = confirmed_slots(slots, updates);
    let pin_ids = identities::<SidecarTablePin>(pins);
    assert(identities::<RecoveryTableUpdateSlot>(filled) =~= identities::<
        RecoveryTableUpdateSlot,
    >(slots));
    let s = lemma_same_place::<RecoveryTableUpdateSlot, RecoveryTableUpdateSlot>(slots, filled, d);
    assert(pin_ids[i] == d);
    lemma_has_first_place(pin_ids, d);
    assert(find_by_identity::<SidecarTablePin>(pins, d) == Some(pins[i])) by {
        let at = first_place(pin_ids, d);
        assert(pin_ids[at] == pin_ids[i]);
    }
}

/// Filling the output slots leaves their tables and aliases as they are.
proof fn lemma_filled(
    slots: Seq<RecoveryTableUpdateSlotModel>,
    updates: Seq<SubTableUpdateModel>,
)
    ensures
        identities::<RecoveryTableUpdateSlot>(confirmed_slots(slots, updates)) == identities::<
            RecoveryTableUpdateSlot,
        >(slots),
        aliases::<RecoveryTableUpdateSlot>(confirmed_slots(slots, updates)) == aliases::<
            RecoveryTableUpdateSlot,
        >(slots),
{
    let filled = confirmed_slots(slots, updates);
    assert(identities::<RecoveryTableUpdateSlot>(filled) =~= identities::<
        RecoveryTableUpdateSlot,
    >(slots));
    assert(aliases::<RecoveryTableUpdateSlot>(filled) =~= aliases::<RecoveryTableUpdateSlot>(
        slots,
    ));
}

/// Confirming an ensure-indices run succeeds exactly where it reached what it
/// announced.
pub proof fn lemma_exact_index_confirmation_succeeds(
    root: Seq<char>,
    sidecar: RecoverySidecarModel,
    updates: Seq<SubTableUpdateModel>,
    committed: Map<TableIdentity, StagedTransactionIdentityModel>,
    refs: Map<TableIdentity, BranchIdentifierModel>,
    targets: Seq<Option<TargetRef>>,
)
    requires
        shape_fault(uri_of(root, sidecar.operation_id), sidecar) is None,
        sidecar.protocol_v8 is Some,
    ensures
        index_confirmation(root, sidecar, updates, committed, refs, targets) is Ok <==> {
            let payload = sidecar.protocol_v8->0;
            &&& payload.effect_phase == RecoveryEffectPhase::Armed
            &&& keys_match(
                identities::<RecoveryEnsureIndicesEffect>(payload.effects),
                updates,
                committed,
            )
            &&& crate::confirm::ensure_indices::refs_match(payload.effects, refs)
            &&& first_defect(
                index_effect_faults(
                    sidecar.operation_id,
                    sidecar.tables,
                    payload.effects,
                    updates,
                    committed,
                    refs,
                    targets,
                ),
            ) is None
        },
{
    let payload = sidecar.protocol_v8->0;
    let pins = sidecar.tables;
    let effect_ids = identities::<RecoveryEnsureIndicesEffect>(payload.effects);
    let faults = index_effect_faults(
        sidecar.operation_id,
        pins,
        payload.effects,
        updates,
        committed,
        refs,
        targets,
    );
    if payload.effect_phase == RecoveryEffectPhase::Armed && keys_match(
        effect_ids,
        updates,
        committed,
    ) && crate::confirm::ensure_indices::refs_match(payload.effects, refs) && first_defect(faults)
        is None {
        let confirmed = index_confirmed(sidecar, payload, updates, committed, refs);
        let after = confirmed.protocol_v8->0;
        lemma_same_pins(pins, confirmed.tables);
        lemma_sound_pins(pins, true);
        lemma_filled(payload.intended_delta.table_updates, updates);
        assert(identities::<RecoveryEnsureIndicesEffect>(after.effects) =~= effect_ids);
        assert(planned_uuids::<RecoveryEnsureIndicesEffect>(after.effects) =~= planned_uuids::<
            RecoveryEnsureIndicesEffect,
        >(payload.effects));
        let before = crate::shape::ensure_indices::table_findings(sidecar.branch, payload, pins);
        let findings = crate::shape::ensure_indices::table_findings(
            sidecar.branch,
            after,
            confirmed.tables,
        );
        assert forall|i: int| 0 <= i < findings.len() implies findings[i] is None by {
            let d = pins[i].identity;
            assert(identities::<SidecarTablePin>(pins)[i] == d);
            assert(effect_ids.contains(d));
            let e = lemma_same_place::<RecoveryEnsureIndicesEffect, RecoveryEnsureIndicesEffect>(
                payload.effects,
                after.effects,
                d,
            );
            assert(effect_ids[e] == d);
            lemma_output(pins, payload.intended_delta.table_updates, updates, i);
            lemma_all_sound(faults, e);
            lemma_all_sound(before, i);
            assert(payload.effects[e].source_fork_version is Some <==> refs.contains_key(d)) by {
                if crate::confirm::ensure_indices::forks(payload.effects, d) {
                    let k = choose|k: int|
                        0 <= k < payload.effects.len() && (#[trigger] payload.effects[k]).identity
                            == d && payload.effects[k].source_fork_version is Some;
                    assert(effect_ids[k] == effect_ids[e]);
                }
            }
        }
        lemma_no_defect(findings);
        assert(ensure_indices_v8_defect(confirmed) is None);
    }
}

/// Confirming a schema apply succeeds exactly where it reached what it announced.
pub proof fn lemma_exact_schema_confirmation_succeeds(
    root: Seq<char>,
    sidecar: RecoverySidecarModel,
    updates: Seq<SubTableUpdateModel>,
    committed: Map<TableIdentity, StagedTransactionIdentityModel>,
)
    requires
        shape_fault(uri_of(root, sidecar.operation_id), sidecar) is None,
        sidecar.protocol_v7 is Some,
    ensures
        schema_confirmation(root, sidecar, updates, committed) is Ok <==> {
            let payload = sidecar.protocol_v7->0;
            &&& payload.effect_phase == RecoveryEffectPhase::Armed
            &&& keys_match(
                identities::<RecoverySchemaApplyEffect>(payload.effects),
                updates,
                committed,
            )
            &&& first_defect(
                schema_effect_faults(
                    sidecar.operation_id,
                    sidecar.tables,
                    payload.effects,
                    updates,
                    committed,
                ),
            ) is None
        },
{
    let payload = sidecar.protocol_v7->0;
    let pins = sidecar.tables;
    let uri = uri_of(root, sidecar.operation_id);
    let version = sidecar.schema_version;
    let effect_ids = identities::<RecoverySchemaApplyEffect>(payload.effects);
    let slots = payload.intended_delta.table_updates;
    let faults = schema_effect_faults(
        sidecar.operation_id,
        pins,
        payload.effects,
        updates,
        committed,
    );
    if payload.effect_phase == RecoveryEffectPhase::Armed && keys_match(
        effect_ids,
        updates,
        committed,
    ) && first_defect(faults) is None {
        let confirmed = schema_confirmed(sidecar, payload, updates, committed);
        let after = confirmed.protocol_v7->0;
        let filled = after.intended_delta.table_updates;
        lemma_same_pins(pins, confirmed.tables);
        lemma_sound_pins(pins, false);
        lemma_filled(slots, updates);
        assert(identities::<RecoverySchemaApplyEffect>(after.effects) =~= effect_ids);
        assert(planned_uuids::<RecoverySchemaApplyEffect>(after.effects) =~= planned_uuids::<
            RecoverySchemaApplyEffect,
        >(payload.effects));
        lemma_first_touches_kept(sidecar, updates, committed);
        assert(restored_aliases(after.intended_delta.renames, confirmed.tables)
            =~= restored_aliases(payload.intended_delta.renames, pins));
        let registered = registration_findings(uri, version, payload);
        let reregistered = registration_findings(uri, version, after);
        assert forall|k: int| 0 <= k < reregistered.len() implies reregistered[k] is None by {
            lemma_all_sound(registered, k);
            let d = payload.intended_delta.registrations[k].identity;
            let ids = identities::<SidecarTableRegistration>(payload.intended_delta.registrations);
            assert(ids[k] == d);
            assert(crate::shape::schema_apply::first_touched(payload.effects, d));
            let f = choose|f: int|
                0 <= f < payload.effects.len() && (#[trigger] payload.effects[f]).identity == d
                    && payload.effects[f].kind is FirstTouchDataset;
            assert(effect_ids[f] == d);
            let e = lemma_same_place::<RecoverySchemaApplyEffect, RecoverySchemaApplyEffect>(
                payload.effects,
                after.effects,
                d,
            );
        }
        lemma_no_defect(reregistered);
        let renamed = rename_findings(uri, version, payload);
        let rerenamed = rename_findings(uri, version, after);
        assert forall|k: int| 0 <= k < rerenamed.len() implies rerenamed[k] is None by {
            lemma_all_sound(renamed, k);
            let d = payload.intended_delta.renames[k].identity;
            if identities::<RecoveryTableUpdateSlot>(slots).contains(d) {
                let s = lemma_same_place::<RecoveryTableUpdateSlot, RecoveryTableUpdateSlot>(
                    slots,
                    filled,
                    d,
                );
            }
        }
        lemma_no_defect(rerenamed);
        let before = crate::shape::schema_apply::table_findings(payload, pins);
        let findings = crate::shape::schema_apply::table_findings(after, confirmed.tables);
        assert forall|i: int| 0 <= i < findings.len() implies findings[i] is None by {
            let d = pins[i].identity;
            assert(identities::<SidecarTablePin>(pins)[i] == d);
            assert(effect_ids.contains(d));
            let e = lemma_same_place::<RecoverySchemaApplyEffect, RecoverySchemaApplyEffect>(
                payload.effects,
                after.effects,
                d,
            );
            assert(effect_ids[e] == d);
            lemma_output(pins, slots, updates, i);
            lemma_all_sound(faults, e);
            lemma_all_sound(before, i);
        }
        lemma_no_defect(findings);
        assert(schema_apply_v7_fault(uri, confirmed) is None);
    }
}

/// A confirmation leaves the first commits of a schema apply first commits.
proof fn lemma_first_touches_kept(
    sidecar: RecoverySidecarModel,
    updates: Seq<SubTableUpdateModel>,
    committed: Map<TableIdentity, StagedTransactionIdentityModel>,
)
    requires
        sidecar.protocol_v7 is Some,
        table_set_consistent(sidecar.protocol_v7->0),
    ensures
        table_set_consistent(
            schema_confirmed(sidecar, sidecar.protocol_v7->0, updates, committed).protocol_v7->0,
        ),
{
    let payload = sidecar.protocol_v7->0;
    let after = schema_confirmed(sidecar, payload, updates, committed).protocol_v7->0;
    let registered = identities::<SidecarTableRegistration>(payload.intended_delta.registrations);
    assert forall|i: int| 0 <= i < registered.len() implies
        crate::shape::schema_apply::first_touched(after.effects, #[trigger] registered[i]) by {
        assert(crate::shape::schema_apply::first_touched(payload.effects, registered[i]));
        let f = choose|f: int|
            0 <= f < payload.effects.len() && (#[trigger] payload.effects[f]).identity
                == registered[i] && payload.effects[f].kind is FirstTouchDataset;
        assert(after.effects[f].identity == registered[i]);
    }
    assert forall|i: int|
        0 <= i < after.effects.len() && (#[trigger] after.effects[i]).kind
            is FirstTouchDataset implies registered.contains(after.effects[i].identity) by {
        assert(payload.effects[i].kind is FirstTouchDataset);
    }
    assert(registrations_match(after));
}

/// Confirming a branch merge succeeds exactly where it reached what it announced.
pub proof fn lemma_exact_merge_confirmation_succeeds(
    root: Seq<char>,
    sidecar: RecoverySidecarModel,
    updates: Seq<SubTableUpdateModel>,
    refs: Map<TableIdentity, BranchIdentifierModel>,
    targets: Seq<Option<TargetRef>>,
)
    requires
        shape_fault(uri_of(root, sidecar.operation_id), sidecar) is None,
        sidecar.protocol_v4 is Some,
    ensures
        merge_confirmation(root, sidecar, updates, refs, targets) is Ok <==> {
            let payload = sidecar.protocol_v4->0;
            let slots = payload.intended_delta.table_updates;
            &&& payload.effect_phase == RecoveryEffectPhase::Armed
            &&& outputs_match(slots, updates)
            &&& crate::confirm::branch_merge::refs_match(payload.effects, refs)
            &&& first_defect(slot_faults(sidecar.operation_id, slots, updates)) is None
            &&& first_defect(
                merge_effect_faults(
                    sidecar.operation_id,
                    sidecar.tables,
                    payload.effects,
                    updates,
                    refs,
                    targets,
                ),
            ) is None
        },
{
    let payload = sidecar.protocol_v4->0;
    let pins = sidecar.tables;
    let slots = payload.intended_delta.table_updates;
    let slot_ids = identities::<RecoveryTableUpdateSlot>(slots);
    let effect_ids = identities::<RecoveryBranchMergeEffect>(payload.effects);
    let outputs = slot_faults(sidecar.operation_id, slots, updates);
    let faults = merge_effect_faults(
        sidecar.operation_id,
        pins,
        payload.effects,
        updates,
        refs,
        targets,
    );
    if payload.effect_phase == RecoveryEffectPhase::Armed && outputs_match(slots, updates)
        && crate::confirm::branch_merge::refs_match(payload.effects, refs) && first_defect(outputs)
        is None && first_defect(faults) is None {
        let confirmed = merge_confirmed(sidecar, payload, updates, refs);
        let after = confirmed.protocol_v4->0;
        let filled = after.intended_delta.table_updates;
        lemma_same_pins(pins, confirmed.tables);
        lemma_sound_pins(pins, true);
        lemma_filled(slots, updates);
        assert(identities::<RecoveryBranchMergeEffect>(after.effects) =~= effect_ids);
        let armed_slots = slot_findings(RecoveryEffectPhase::Armed, slots);
        let filled_slots = slot_findings(RecoveryEffectPhase::EffectsConfirmed, filled);
        assert forall|k: int| 0 <= k < filled_slots.len() implies filled_slots[k] is None by {
            lemma_all_sound(armed_slots, k);
            lemma_all_sound(outputs, k);
            assert(slot_ids[k] == slots[k].identity);
            assert(identities::<SubTableUpdate>(updates).contains(slots[k].identity));
        }
        lemma_no_defect(filled_slots);
        let before = crate::shape::branch_merge::table_findings(payload, pins);
        let findings = crate::shape::branch_merge::table_findings(after, confirmed.tables);
        assert forall|i: int| 0 <= i < findings.len() implies findings[i] is None by {
            let d = pins[i].identity;
            assert(identities::<SidecarTablePin>(pins)[i] == d);
            assert(effect_ids.contains(d));
            let e = lemma_same_place::<RecoveryBranchMergeEffect, RecoveryBranchMergeEffect>(
                payload.effects,
                after.effects,
                d,
            );
            assert(effect_ids[e] == d);
            assert(slot_ids.contains(d));
            let s = lemma_same_place::<RecoveryTableUpdateSlot, RecoveryTableUpdateSlot>(
                slots,
                filled,
                d,
            );
            assert(slot_ids[s] == d);
            lemma_output(pins, slots, updates, i);
            lemma_all_sound(faults, e);
            lemma_all_sound(before, i);
            lemma_same_chains(sidecar, updates, refs, i);
            lemma_chain_ignores_confirmation(
                pins[i],
                confirmed.tables[i],
                chain_of(payload.effects[e].kind),
                uuids_before(payload, pins, i),
            );
            assert(payload.effects[e].kind.fork_version() is Some <==> refs.contains_key(d)) by {
                if crate::confirm::branch_merge::forks(payload.effects, d) {
                    let k = choose|k: int|
                        0 <= k < payload.effects.len() && (#[trigger] payload.effects[k]).identity
                            == d && payload.effects[k].kind.fork_version() is Some;
                    assert(effect_ids[k] == effect_ids[e]);
                }
            }
        }
        lemma_no_defect(findings);
        assert(branch_merge_v4_defect(confirmed) is None);
    }
}

/// The rules of a chain do not depend on what its pin confirms.
proof fn lemma_chain_ignores_confirmation(
    pin: SidecarTablePinModel,
    confirmed: SidecarTablePinModel,
    chain: Seq<StagedTransactionIdentityModel>,
    seen: Seq<Seq<char>>,
)
    requires
        confirmed == (SidecarTablePinModel {
            confirmed_version: confirmed.confirmed_version,
            ..pin
        }),
    ensures
        chain_defect(confirmed, chain, seen) == chain_defect(pin, chain, seen),
{
    assert(step_findings(confirmed, chain, seen) =~= step_findings(pin, chain, seen));
}

/// A confirmation leaves the planned chains of a branch merge as they are.
proof fn lemma_same_chains(
    sidecar: RecoverySidecarModel,
    updates: Seq<SubTableUpdateModel>,
    refs: Map<TableIdentity, BranchIdentifierModel>,
    i: int,
)
    requires
        sidecar.protocol_v4 is Some,
        crate::shape::branch_merge::effects_covered(sidecar.protocol_v4->0, sidecar.tables),
        0 <= i <= sidecar.tables.len(),
    ensures
        ({
            let payload = sidecar.protocol_v4->0;
            let confirmed = merge_confirmed(sidecar, payload, updates, refs);
            uuids_before(confirmed.protocol_v4->0, confirmed.tables, i) == uuids_before(
                payload,
                sidecar.tables,
                i,
            )
        }),
    decreases i,
{
    if i > 0 {
        let payload = sidecar.protocol_v4->0;
        let confirmed = merge_confirmed(sidecar, payload, updates, refs);
        let after = confirmed.protocol_v4->0;
        let d = sidecar.tables[i - 1].identity;
        lemma_same_chains(sidecar, updates, refs, i - 1);
        assert(identities::<SidecarTablePin>(sidecar.tables)[i - 1] == d);
        assert(identities::<RecoveryBranchMergeEffect>(after.effects) =~= identities::<
            RecoveryBranchMergeEffect,
        >(payload.effects));
        let e = lemma_same_place::<RecoveryBranchMergeEffect, RecoveryBranchMergeEffect>(
            payload.effects,
            after.effects,
            d,
        );
        assert(chain_of(after.effects[e].kind) == chain_of(payload.effects[e].kind));
    }
}

} // verus!
