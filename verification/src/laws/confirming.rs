//! What a confirmation does to a sidecar, and what recovery makes of it.

use vstd::prelude::*;

use crate::classify::{class_of, ClassificationMode, TableClassification};
use crate::confirm::branch_merge::merge_confirmation;
use crate::confirm::common::{achieved, confirmed_pins, keys_match, update_of};
use crate::confirm::ensure_indices::index_confirmation;
use crate::confirm::mutation_load::{
    occ_confirmation, occ_confirmed, occ_effect_fault, occ_effect_faults,
};
use crate::confirm::schema_apply::schema_confirmation;
use crate::error::OmniErrorModel;
use crate::identity::TableIdentity;
use crate::laws::storing::record_of;
use crate::lookup::{
    aliases, find_by_identity, first_place, identities, lemma_has_first_place, planned_uuids,
    Identified,
};
use crate::process::indices::TargetRef;
use crate::publish::{SubTableUpdate, SubTableUpdateModel};
use crate::shape::defect::{
    first_defect, lemma_all_sound, lemma_no_defect, lemma_sound_pins, pin_defect, pin_findings,
    pins_defect,
};
use crate::shape::mutation_load::{mutation_load_defect, table_findings};
use crate::shape::validate::{ownership_fault, pin_path_findings, shape_fault};
use crate::sidecar::{
    BranchIdentifierModel, RecoveryEffectPhase, RecoverySidecarModel, RecoveryTableEffect,
    RecoveryTableEffectModel, RecoveryTableUpdateSlot, RecoveryTableUpdateSlotModel,
    SidecarTablePin, SidecarTablePinModel, StagedTransactionIdentityModel, SIDECAR_SCHEMA_VERSION,
};
use crate::store::{coordination_keys, reread, same_coordination, uri_of, write_fault};

verus! {

/// A confirmed sidecar is protected by the same gates as the armed one, and lies
/// in the same graph.
proof fn lemma_confirmed_keeps_gates(
    root: Seq<char>,
    uri: Seq<char>,
    armed: RecoverySidecarModel,
    confirmed: RecoverySidecarModel,
    updates: Seq<SubTableUpdateModel>,
)
    requires
        confirmed.tables == confirmed_pins(armed.tables, updates),
        confirmed.operation_id == armed.operation_id,
        confirmed.writer_kind == armed.writer_kind,
        confirmed.branch == armed.branch,
        confirmed.schema_version == armed.schema_version,
    ensures
        same_coordination(confirmed, armed),
        ownership_fault(root, uri, confirmed) == ownership_fault(root, uri, armed),
{
    assert(coordination_keys(confirmed) =~= coordination_keys(armed));
    assert(pin_path_findings(root, uri, confirmed.tables) =~= pin_path_findings(
        root,
        uri,
        armed.tables,
    ));
}

/// A sweep that waits for the gates of an armed sidecar meanwhile accepts its
/// confirmation: of a mutation or load,
pub proof fn lemma_confirmed_mutation_is_read_again(
    root: Seq<char>,
    sidecar: RecoverySidecarModel,
    updates: Seq<SubTableUpdateModel>,
    committed: Map<TableIdentity, StagedTransactionIdentityModel>,
)
    requires
        write_fault(root, sidecar) is None,
        sidecar.schema_version <= SIDECAR_SCHEMA_VERSION,
        occ_confirmation(root, sidecar, updates, committed) is Ok,
    ensures
        ({
            let confirmed = occ_confirmation(root, sidecar, updates, committed)->Ok_0;
            reread(root, sidecar, record_of(confirmed)) == Ok::<
                RecoverySidecarModel,
                OmniErrorModel,
            >(confirmed)
        }),
{
    let confirmed = occ_confirmation(root, sidecar, updates, committed)->Ok_0;
    lemma_confirmed_keeps_gates(
        root,
        uri_of(root, sidecar.operation_id),
        sidecar,
        confirmed,
        updates,
    );
}

/// of a schema apply,
pub proof fn lemma_confirmed_schema_apply_is_read_again(
    root: Seq<char>,
    sidecar: RecoverySidecarModel,
    updates: Seq<SubTableUpdateModel>,
    committed: Map<TableIdentity, StagedTransactionIdentityModel>,
)
    requires
        write_fault(root, sidecar) is None,
        sidecar.schema_version <= SIDECAR_SCHEMA_VERSION,
        schema_confirmation(root, sidecar, updates, committed) is Ok,
    ensures
        ({
            let confirmed = schema_confirmation(root, sidecar, updates, committed)->Ok_0;
            reread(root, sidecar, record_of(confirmed)) == Ok::<
                RecoverySidecarModel,
                OmniErrorModel,
            >(confirmed)
        }),
{
    let confirmed = schema_confirmation(root, sidecar, updates, committed)->Ok_0;
    lemma_confirmed_keeps_gates(
        root,
        uri_of(root, sidecar.operation_id),
        sidecar,
        confirmed,
        updates,
    );
}

/// of an ensure-indices run,
pub proof fn lemma_confirmed_ensure_indices_is_read_again(
    root: Seq<char>,
    sidecar: RecoverySidecarModel,
    updates: Seq<SubTableUpdateModel>,
    committed: Map<TableIdentity, StagedTransactionIdentityModel>,
    refs: Map<TableIdentity, BranchIdentifierModel>,
    targets: Seq<Option<TargetRef>>,
)
    requires
        write_fault(root, sidecar) is None,
        sidecar.schema_version <= SIDECAR_SCHEMA_VERSION,
        index_confirmation(root, sidecar, updates, committed, refs, targets) is Ok,
    ensures
        ({
            let confirmed = index_confirmation(
                root,
                sidecar,
                updates,
                committed,
                refs,
                targets,
            )->Ok_0;
            reread(root, sidecar, record_of(confirmed)) == Ok::<
                RecoverySidecarModel,
                OmniErrorModel,
            >(confirmed)
        }),
{
    let confirmed = index_confirmation(root, sidecar, updates, committed, refs, targets)->Ok_0;
    lemma_confirmed_keeps_gates(
        root,
        uri_of(root, sidecar.operation_id),
        sidecar,
        confirmed,
        updates,
    );
}

/// and of a branch merge.
pub proof fn lemma_confirmed_merge_is_read_again(
    root: Seq<char>,
    sidecar: RecoverySidecarModel,
    updates: Seq<SubTableUpdateModel>,
    refs: Map<TableIdentity, BranchIdentifierModel>,
    targets: Seq<Option<TargetRef>>,
)
    requires
        write_fault(root, sidecar) is None,
        sidecar.schema_version <= SIDECAR_SCHEMA_VERSION,
        merge_confirmation(root, sidecar, updates, refs, targets) is Ok,
    ensures
        ({
            let confirmed = merge_confirmation(root, sidecar, updates, refs, targets)->Ok_0;
            reread(root, sidecar, record_of(confirmed)) == Ok::<
                RecoverySidecarModel,
                OmniErrorModel,
            >(confirmed)
        }),
{
    let confirmed = merge_confirmation(root, sidecar, updates, refs, targets)->Ok_0;
    lemma_confirmed_keeps_gates(
        root,
        uri_of(root, sidecar.operation_id),
        sidecar,
        confirmed,
        updates,
    );
}

/// A sidecar is confirmed once: no second confirmation is accepted, whatever it
/// says.
pub proof fn lemma_confirmed_once(
    root: Seq<char>,
    sidecar: RecoverySidecarModel,
    updates: Seq<SubTableUpdateModel>,
    committed: Map<TableIdentity, StagedTransactionIdentityModel>,
    refs: Map<TableIdentity, BranchIdentifierModel>,
    targets: Seq<Option<TargetRef>>,
    again: Seq<SubTableUpdateModel>,
    recommitted: Map<TableIdentity, StagedTransactionIdentityModel>,
    rerefs: Map<TableIdentity, BranchIdentifierModel>,
    retargets: Seq<Option<TargetRef>>,
)
    ensures
        occ_confirmation(root, sidecar, updates, committed) matches Ok(confirmed)
            ==> occ_confirmation(root, confirmed, again, recommitted) is Err,
        schema_confirmation(root, sidecar, updates, committed) matches Ok(confirmed)
            ==> schema_confirmation(root, confirmed, again, recommitted) is Err,
        index_confirmation(root, sidecar, updates, committed, refs, targets) matches Ok(confirmed)
            ==> index_confirmation(root, confirmed, again, recommitted, rerefs, retargets) is Err,
        merge_confirmation(root, sidecar, updates, refs, targets) matches Ok(confirmed)
            ==> merge_confirmation(root, confirmed, again, rerefs, retargets) is Err,
{
}

/// The place at which two lists with the same identities hold one of them.
pub proof fn lemma_same_place<T: Identified, U: Identified>(
    left: Seq<T::V>,
    right: Seq<U::V>,
    identity: TableIdentity,
) -> (k: int)
    requires
        identities::<T>(left) == identities::<U>(right),
        identities::<T>(left).contains(identity),
    ensures
        0 <= k < left.len(),
        left.len() == right.len(),
        T::identity_of(left[k]) == identity,
        U::identity_of(right[k]) == identity,
        find_by_identity::<T>(left, identity) == Some(left[k]),
        find_by_identity::<U>(right, identity) == Some(right[k]),
{
    lemma_has_first_place(identities::<T>(left), identity);
    let k = first_place(identities::<T>(left), identity);
    assert(identities::<T>(left)[k] == identity);
    assert(identities::<U>(right)[k] == identity);
    assert(identities::<T>(left).len() == left.len());
    assert(identities::<U>(right).len() == right.len());
    k
}

/// What confirming the exact effects of a mutation or load puts next to one pin.
proof fn lemma_confirmed_table(
    root: Seq<char>,
    sidecar: RecoverySidecarModel,
    updates: Seq<SubTableUpdateModel>,
    committed: Map<TableIdentity, StagedTransactionIdentityModel>,
    i: int,
)
    requires
        shape_fault(uri_of(root, sidecar.operation_id), sidecar) is None,
        sidecar.protocol_v3 is Some,
        0 <= i < sidecar.tables.len(),
        keys_match(
            identities::<RecoveryTableEffect>(sidecar.protocol_v3->0.effects),
            updates,
            committed,
        ),
        first_defect(
            occ_effect_faults(
                sidecar.operation_id,
                sidecar.tables,
                sidecar.protocol_v3->0.effects,
                updates,
                committed,
            ),
        ) is None,
    ensures
        ({
            let payload = sidecar.protocol_v3->0;
            let confirmed = occ_confirmed(sidecar, payload, updates, committed);
            let pin = sidecar.tables[i];
            let effect = find_by_identity::<RecoveryTableEffect>(payload.effects, pin.identity);
            let slot = find_by_identity::<RecoveryTableUpdateSlot>(
                payload.intended_delta.table_updates,
                pin.identity,
            );
            let update = update_of(updates, pin.identity);
            &&& effect is Some
            &&& slot is Some
            &&& update is Some
            &&& occ_effect_fault(
                sidecar.operation_id,
                pin,
                effect->0,
                update->0,
                committed[pin.identity],
            ) is None
            &&& confirmed.tables[i] == (SidecarTablePinModel {
                confirmed_version: Some(update->0.table_version),
                ..pin
            })
            &&& find_by_identity::<RecoveryTableEffect>(
                confirmed.protocol_v3->0.effects,
                pin.identity,
            ) == Some(
                RecoveryTableEffectModel {
                    confirmed_transaction: Some(committed[pin.identity]),
                    ..effect->0
                },
            )
            &&& find_by_identity::<RecoveryTableUpdateSlot>(
                confirmed.protocol_v3->0.intended_delta.table_updates,
                pin.identity,
            ) == Some(
                RecoveryTableUpdateSlotModel { confirmed: Some(achieved(update->0)), ..slot->0 },
            )
        }),
{
    let payload = sidecar.protocol_v3->0;
    let confirmed = occ_confirmed(sidecar, payload, updates, committed);
    let pins = sidecar.tables;
    let pin = pins[i];
    let d = pin.identity;
    let pin_ids = identities::<SidecarTablePin>(pins);
    let effect_ids = identities::<RecoveryTableEffect>(payload.effects);
    let slots = payload.intended_delta.table_updates;
    let slot_ids = identities::<RecoveryTableUpdateSlot>(slots);
    let update_ids = identities::<SubTableUpdate>(updates);
    assert(pin_ids[i] == d);
    assert(effect_ids.contains(d));
    assert(slot_ids.contains(d));
    let more = confirmed.protocol_v3->0.effects;
    assert(identities::<RecoveryTableEffect>(more) =~= effect_ids);
    let e = lemma_same_place::<RecoveryTableEffect, RecoveryTableEffect>(payload.effects, more, d);
    let filled = confirmed.protocol_v3->0.intended_delta.table_updates;
    assert(identities::<RecoveryTableUpdateSlot>(filled) =~= slot_ids);
    let s = lemma_same_place::<RecoveryTableUpdateSlot, RecoveryTableUpdateSlot>(slots, filled, d);
    assert(effect_ids[e] == d);
    assert(update_ids.contains(d));
    lemma_has_first_place(update_ids, d);
    let faults = occ_effect_faults(
        sidecar.operation_id,
        pins,
        payload.effects,
        updates,
        committed,
    );
    lemma_all_sound(faults, e);
    lemma_sound_pins(pins, false);
    lemma_has_first_place(pin_ids, d);
    assert(find_by_identity::<SidecarTablePin>(pins, d) == Some(pin)) by {
        let at = first_place(pin_ids, d);
        assert(pin_ids[at] == pin_ids[i]);
    }
}

/// Confirming a mutation or load succeeds exactly where its writer reached what it
/// announced: the one update and the one transaction that was planned for each
/// table.
pub proof fn lemma_exact_confirmation_succeeds(
    root: Seq<char>,
    sidecar: RecoverySidecarModel,
    updates: Seq<SubTableUpdateModel>,
    committed: Map<TableIdentity, StagedTransactionIdentityModel>,
)
    requires
        shape_fault(uri_of(root, sidecar.operation_id), sidecar) is None,
        sidecar.protocol_v3 is Some,
    ensures
        occ_confirmation(root, sidecar, updates, committed) is Ok <==> {
            let payload = sidecar.protocol_v3->0;
            &&& payload.effect_phase == RecoveryEffectPhase::Armed
            &&& keys_match(identities::<RecoveryTableEffect>(payload.effects), updates, committed)
            &&& first_defect(
                occ_effect_faults(
                    sidecar.operation_id,
                    sidecar.tables,
                    payload.effects,
                    updates,
                    committed,
                ),
            ) is None
        },
{
    let payload = sidecar.protocol_v3->0;
    let uri = uri_of(root, sidecar.operation_id);
    let faults = occ_effect_faults(
        sidecar.operation_id,
        sidecar.tables,
        payload.effects,
        updates,
        committed,
    );
    if payload.effect_phase == RecoveryEffectPhase::Armed && keys_match(
        identities::<RecoveryTableEffect>(payload.effects),
        updates,
        committed,
    ) && first_defect(faults) is None {
        let confirmed = occ_confirmed(sidecar, payload, updates, committed);
        let after = confirmed.protocol_v3->0;
        lemma_same_pins(sidecar.tables, confirmed.tables);
        assert(identities::<RecoveryTableEffect>(after.effects) =~= identities::<
            RecoveryTableEffect,
        >(payload.effects));
        assert(planned_uuids::<RecoveryTableEffect>(after.effects) =~= planned_uuids::<
            RecoveryTableEffect,
        >(payload.effects));
        assert(identities::<RecoveryTableUpdateSlot>(after.intended_delta.table_updates)
            =~= identities::<RecoveryTableUpdateSlot>(payload.intended_delta.table_updates));
        let findings = table_findings(after, confirmed.tables);
        let before = table_findings(payload, sidecar.tables);
        assert forall|i: int| 0 <= i < findings.len() implies findings[i] is None by {
            lemma_confirmed_table(root, sidecar, updates, committed, i);
            lemma_all_sound(before, i);
        }
        lemma_no_defect(findings);
        assert(mutation_load_defect(confirmed) is None);
        assert(shape_fault(uri, confirmed) is None);
    }
}

/// Pins that differ in what they confirm only are sound alike.
pub proof fn lemma_same_pins(left: Seq<SidecarTablePinModel>, right: Seq<SidecarTablePinModel>)
    requires
        left.len() == right.len(),
        forall|i: int|
            0 <= i < left.len() ==> #[trigger] right[i] == (SidecarTablePinModel {
                confirmed_version: right[i].confirmed_version,
                ..left[i]
            }),
    ensures
        identities::<SidecarTablePin>(left) == identities::<SidecarTablePin>(right),
        aliases::<SidecarTablePin>(left) == aliases::<SidecarTablePin>(right),
        forall|non_empty: bool| pins_defect(left, non_empty) == pins_defect(right, non_empty),
{
    assert(identities::<SidecarTablePin>(left) =~= identities::<SidecarTablePin>(right));
    assert(aliases::<SidecarTablePin>(left) =~= aliases::<SidecarTablePin>(right));
    assert forall|i: int| 0 <= i < left.len() implies pin_defect(left, i) == pin_defect(
        right,
        i,
    ) by {
        assert(right[i] == (SidecarTablePinModel {
            confirmed_version: right[i].confirmed_version,
            ..left[i]
        }));
        assert(identities::<SidecarTablePin>(left.subrange(0, i)) =~= identities::<
            SidecarTablePin,
        >(right.subrange(0, i)));
        assert(aliases::<SidecarTablePin>(left.subrange(0, i)) =~= aliases::<SidecarTablePin>(
            right.subrange(0, i),
        ));
    }
    assert(pin_findings(left) =~= pin_findings(right));
}

/// A confirmed mutation or load that crashed before its publish is finished: each
/// table whose head is the commit that was confirmed, over the version that the
/// manifest still selects, has reached its goal.
pub proof fn lemma_confirmed_is_reached(
    root: Seq<char>,
    sidecar: RecoverySidecarModel,
    updates: Seq<SubTableUpdateModel>,
    committed: Map<TableIdentity, StagedTransactionIdentityModel>,
    i: int,
)
    requires
        sidecar.protocol_v3 is Some,
        occ_confirmation(root, sidecar, updates, committed) is Ok,
        0 <= i < sidecar.tables.len(),
        sidecar.tables[i].post_commit_pin > sidecar.tables[i].expected_version,
    ensures
        ({
            let confirmed = occ_confirmation(root, sidecar, updates, committed)->Ok_0;
            let pin = confirmed.tables[i];
            class_of(
                pin,
                pin.post_commit_pin,
                Some(committed[pin.identity]),
                pin.expected_version,
                ClassificationMode::ExactEffect,
                confirmed.protocol_v3,
            ) == TableClassification::RolledPastExpected
        }),
{
    lemma_confirmed_table(root, sidecar, updates, committed, i);
}

} // verus!
