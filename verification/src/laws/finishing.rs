//! An attempt that was confirmed and crashed before its publish is finished: what
//! its writer confirmed, recovery recognizes.

use vstd::prelude::*;

use crate::classify::{pinned_version, TableClassification};
use crate::confirm::branch_merge::{merge_confirmation, merge_effect_faults};
use crate::confirm::ensure_indices::{index_confirmation, index_effect_faults};
use crate::confirm::schema_apply::{schema_confirmation, schema_effect_faults};
use crate::history::{EffectOwnership, LanceHeadObservationModel};
use crate::identity::TableIdentity;
use crate::laws::confirming::lemma_same_place;
use crate::laws::exact::lemma_output;
use crate::lookup::{first_place, identities, lemma_has_first_place};
use crate::process::indices::{index_class, index_effect, TargetRef};
use crate::process::merge::merged_table;
use crate::process::schema::{schema_class, schema_effect};
use crate::publish::SubTableUpdateModel;
use crate::shape::branch_merge::{chain_of, step_findings, uuids_before};
use crate::shape::defect::{lemma_all_sound, lemma_sound_pins};
use crate::sidecar::{
    BranchIdentifierModel, RecoveryBranchMergeEffect, RecoveryEnsureIndicesEffect,
    RecoverySchemaApplyEffect, RecoverySidecarModel, SidecarTablePin,
    StagedTransactionIdentityModel,
};
use crate::snapshot::{bound_entry, SnapshotModel};

verus! {

/// The head of a table whose last commit is `transaction`.
pub open spec fn own_head(
    version: u64,
    transaction: StagedTransactionIdentityModel,
) -> LanceHeadObservationModel {
    LanceHeadObservationModel {
        version,
        transaction: Some(transaction),
        effect_ownership: EffectOwnership::OwnAtHead,
    }
}

/// Of a confirmed schema apply, each table whose head is the commit that was
/// confirmed, over the version that the manifest still selects, has reached its
/// goal.
pub proof fn lemma_confirmed_schema_apply_is_reached(
    root: Seq<char>,
    sidecar: RecoverySidecarModel,
    updates: Seq<SubTableUpdateModel>,
    committed: Map<TableIdentity, StagedTransactionIdentityModel>,
    i: int,
)
    requires
        sidecar.protocol_v7 is Some,
        schema_confirmation(root, sidecar, updates, committed) is Ok,
        0 <= i < sidecar.tables.len(),
        sidecar.tables[i].post_commit_pin > sidecar.tables[i].expected_version,
    ensures
        ({
            let confirmed = schema_confirmation(root, sidecar, updates, committed)->Ok_0;
            let payload = confirmed.protocol_v7->0;
            let pin = confirmed.tables[i];
            schema_class(
                payload,
                pin,
                schema_effect(payload, pin),
                pin.expected_version,
                own_head(pin.post_commit_pin, committed[pin.identity]),
            ) == TableClassification::RolledPastExpected
        }),
{
    let payload = sidecar.protocol_v7->0;
    let pins = sidecar.tables;
    let d = pins[i].identity;
    let effect_ids = identities::<RecoverySchemaApplyEffect>(payload.effects);
    let confirmed = schema_confirmation(root, sidecar, updates, committed)->Ok_0;
    let after = confirmed.protocol_v7->0;
    let faults = schema_effect_faults(
        sidecar.operation_id,
        pins,
        payload.effects,
        updates,
        committed,
    );
    assert(identities::<SidecarTablePin>(pins)[i] == d);
    assert(effect_ids.contains(d));
    assert(identities::<RecoverySchemaApplyEffect>(after.effects) =~= effect_ids);
    let e = lemma_same_place::<RecoverySchemaApplyEffect, RecoverySchemaApplyEffect>(
        payload.effects,
        after.effects,
        d,
    );
    assert(effect_ids[e] == d);
    lemma_sound_pins(pins, false);
    lemma_output(pins, payload.intended_delta.table_updates, updates, i);
    lemma_all_sound(faults, e);
}

/// Of a confirmed ensure-indices run, each table whose head is the commit that was
/// confirmed, over the version that the manifest still selects, has reached its
/// goal.
pub proof fn lemma_confirmed_ensure_indices_is_reached(
    root: Seq<char>,
    sidecar: RecoverySidecarModel,
    updates: Seq<SubTableUpdateModel>,
    committed: Map<TableIdentity, StagedTransactionIdentityModel>,
    refs: Map<TableIdentity, BranchIdentifierModel>,
    targets: Seq<Option<TargetRef>>,
    i: int,
)
    requires
        sidecar.protocol_v8 is Some,
        index_confirmation(root, sidecar, updates, committed, refs, targets) is Ok,
        0 <= i < sidecar.tables.len(),
    ensures
        ({
            let confirmed = index_confirmation(
                root,
                sidecar,
                updates,
                committed,
                refs,
                targets,
            )->Ok_0;
            let payload = confirmed.protocol_v8->0;
            let pin = confirmed.tables[i];
            index_class(
                payload,
                pin,
                index_effect(payload, pin),
                pin.expected_version,
                own_head(pin.post_commit_pin, committed[pin.identity]),
            ) == TableClassification::RolledPastExpected
        }),
{
    let payload = sidecar.protocol_v8->0;
    let pins = sidecar.tables;
    let d = pins[i].identity;
    let effect_ids = identities::<RecoveryEnsureIndicesEffect>(payload.effects);
    let confirmed = index_confirmation(root, sidecar, updates, committed, refs, targets)->Ok_0;
    let after = confirmed.protocol_v8->0;
    let faults = index_effect_faults(
        sidecar.operation_id,
        pins,
        payload.effects,
        updates,
        committed,
        refs,
        targets,
    );
    assert(identities::<SidecarTablePin>(pins)[i] == d);
    assert(effect_ids.contains(d));
    assert(identities::<RecoveryEnsureIndicesEffect>(after.effects) =~= effect_ids);
    let e = lemma_same_place::<RecoveryEnsureIndicesEffect, RecoveryEnsureIndicesEffect>(
        payload.effects,
        after.effects,
        d,
    );
    assert(effect_ids[e] == d);
    lemma_sound_pins(pins, true);
    lemma_output(pins, payload.intended_delta.table_updates, updates, i);
    lemma_all_sound(faults, e);
    let before = crate::shape::ensure_indices::table_findings(sidecar.branch, payload, pins);
    lemma_all_sound(before, i);
    if payload.effects[e].source_fork_version is Some {
        assert(crate::confirm::ensure_indices::forks(payload.effects, d));
        assert(refs.contains_key(d));
    }
}

/// Of a confirmed branch merge, each table that is still as its writer confirmed
/// it, while the manifest still selects what the merge started from, is complete,
/// and nothing speaks against publishing it.
pub proof fn lemma_confirmed_merge_is_complete(
    root: Seq<char>,
    snapshot: SnapshotModel,
    sidecar: RecoverySidecarModel,
    updates: Seq<SubTableUpdateModel>,
    refs: Map<TableIdentity, BranchIdentifierModel>,
    targets: Seq<Option<TargetRef>>,
    i: int,
)
    requires
        sidecar.protocol_v4 is Some,
        merge_confirmation(root, sidecar, updates, refs, targets) is Ok,
        0 <= i < sidecar.tables.len(),
        bound_entry(snapshot, sidecar.tables[i].identity, sidecar.tables[i].table_key) matches Ok(
            entry,
        ) && pinned_version(entry) == sidecar.tables[i].expected_version,
    ensures
        ({
            let confirmed = merge_confirmation(root, sidecar, updates, refs, targets)->Ok_0;
            let payload = confirmed.protocol_v4->0;
            let at = first_place(
                identities::<RecoveryBranchMergeEffect>(payload.effects),
                sidecar.tables[i].identity,
            );
            let table = merged_table(snapshot, payload, confirmed.tables[i], targets[at]);
            &&& table is Ok
            &&& table->Ok_0.complete
            &&& table->Ok_0.hazard is None
            &&& table->Ok_0.mismatch is None
            &&& table->Ok_0.state.classification == TableClassification::RolledPastExpected
        }),
{
    let payload = sidecar.protocol_v4->0;
    let pins = sidecar.tables;
    let pin = pins[i];
    let d = pin.identity;
    let slots = payload.intended_delta.table_updates;
    let effect_ids = identities::<RecoveryBranchMergeEffect>(payload.effects);
    let slot_ids = identities::<crate::sidecar::RecoveryTableUpdateSlot>(slots);
    let confirmed = merge_confirmation(root, sidecar, updates, refs, targets)->Ok_0;
    let after = confirmed.protocol_v4->0;
    let faults = merge_effect_faults(
        sidecar.operation_id,
        pins,
        payload.effects,
        updates,
        refs,
        targets,
    );
    assert(identities::<SidecarTablePin>(pins)[i] == d);
    assert(effect_ids.contains(d));
    assert(identities::<RecoveryBranchMergeEffect>(after.effects) =~= effect_ids);
    let e = lemma_same_place::<RecoveryBranchMergeEffect, RecoveryBranchMergeEffect>(
        payload.effects,
        after.effects,
        d,
    );
    assert(effect_ids[e] == d);
    lemma_has_first_place(effect_ids, d);
    let at = first_place(effect_ids, d);
    assert(at == e) by {
        assert(effect_ids[at] == effect_ids[e]);
    }
    assert(slot_ids.contains(d));
    lemma_has_first_place(slot_ids, d);
    lemma_sound_pins(pins, true);
    lemma_output(pins, slots, updates, i);
    lemma_all_sound(faults, e);
    let effect = payload.effects[e];
    if effect.kind.fork_version() is Some {
        assert(crate::confirm::branch_merge::forks(payload.effects, d));
        assert(refs.contains_key(d));
    }
    if effect.kind is MultiCommitHead {
        let chain = chain_of(effect.kind);
        let before = crate::shape::branch_merge::table_findings(payload, pins);
        lemma_all_sound(before, i);
        let steps = step_findings(pin, chain, uuids_before(payload, pins, i));
        lemma_all_sound(steps, chain.len() - 1);
    }
    reveal(merged_table);
}

} // verus!
