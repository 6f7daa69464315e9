//! What follows for a sidecar that breaks no rule of its shape.

use vstd::prelude::*;

use crate::lookup::{first_place, identities, lemma_has_first_place};
use crate::process::merge::chains_present;
use crate::shape::branch_merge::{
    branch_merge_v4_defect, effect_of, effects_covered, slot_of, uuids_before,
};
use crate::shape::defect::lemma_all_sound;
use crate::shape::ensure_indices::ensure_indices_v8_defect;
use crate::shape::mutation_load::mutation_load_defect;
use crate::shape::schema_apply::schema_apply_v7_fault;
use crate::shape::validate::shape_fault;
use crate::sidecar::{
    RecoveryBranchMergeEffect, RecoveryBranchMergeEffectKindModel, RecoverySidecarModel,
    SidecarKind, SidecarTablePin,
};

verus! {

/// A sound sidecar carries at most one writer's payload, and the payload belongs to
/// the kind of its writer.
pub proof fn lemma_one_payload(uri: Seq<char>, sidecar: RecoverySidecarModel)
    requires
        shape_fault(uri, sidecar) is None,
    ensures
        sidecar.protocol_v3 is Some ==> {
            &&& sidecar.writer_kind == SidecarKind::Mutation || sidecar.writer_kind
                == SidecarKind::Load
            &&& sidecar.protocol_v4 is None && sidecar.protocol_v7 is None
            &&& sidecar.protocol_v8 is None && sidecar.ensure_indices_rollback_v6 is None
        },
        sidecar.protocol_v4 is Some ==> {
            &&& sidecar.writer_kind == SidecarKind::BranchMerge
            &&& sidecar.protocol_v3 is None && sidecar.protocol_v7 is None
            &&& sidecar.protocol_v8 is None && sidecar.ensure_indices_rollback_v6 is None
        },
        sidecar.protocol_v7 is Some ==> {
            &&& sidecar.writer_kind == SidecarKind::SchemaApply
            &&& sidecar.protocol_v3 is None && sidecar.protocol_v4 is None
            &&& sidecar.protocol_v8 is None && sidecar.ensure_indices_rollback_v6 is None
        },
        sidecar.protocol_v8 is Some ==> {
            &&& sidecar.writer_kind == SidecarKind::EnsureIndices
            &&& sidecar.protocol_v3 is None && sidecar.protocol_v4 is None
            &&& sidecar.protocol_v7 is None && sidecar.ensure_indices_rollback_v6 is None
        },
{
}

/// A sound mutation or load keeps every rule of its payload. Its pins, effects and
/// output slots belong together one to one.
pub proof fn lemma_sound_mutation(uri: Seq<char>, sidecar: RecoverySidecarModel)
    requires
        shape_fault(uri, sidecar) is None,
        sidecar.protocol_v3 is Some,
    ensures
        mutation_load_defect(sidecar) is None,
        crate::shape::mutation_load::one_to_one(sidecar.protocol_v3->0, sidecar.tables),
{
}

/// A sound schema apply keeps every rule of its payload. Its pins, effects and
/// output slots belong together one to one.
pub proof fn lemma_sound_schema_apply(uri: Seq<char>, sidecar: RecoverySidecarModel)
    requires
        shape_fault(uri, sidecar) is None,
        sidecar.protocol_v7 is Some,
    ensures
        schema_apply_v7_fault(uri, sidecar) is None,
        crate::shape::schema_apply::one_to_one(sidecar.protocol_v7->0, sidecar.tables),
{
}

/// A sound ensure-indices run keeps every rule of its payload. Its pins, effects
/// and output slots belong together one to one.
pub proof fn lemma_sound_ensure_indices(uri: Seq<char>, sidecar: RecoverySidecarModel)
    requires
        shape_fault(uri, sidecar) is None,
        sidecar.protocol_v8 is Some,
    ensures
        ensure_indices_v8_defect(sidecar) is None,
        crate::shape::ensure_indices::one_to_one(sidecar.protocol_v8->0, sidecar.tables),
{
}

/// A sound branch merge keeps every rule of its payload. Its pins and effects
/// belong together one to one, every one of them has an output slot, and every
/// effect that commits data plans at least one transaction.
pub proof fn lemma_sound_branch_merge(uri: Seq<char>, sidecar: RecoverySidecarModel)
    requires
        shape_fault(uri, sidecar) is None,
        sidecar.protocol_v4 is Some,
    ensures
        branch_merge_v4_defect(sidecar) is None,
        effects_covered(sidecar.protocol_v4->0, sidecar.tables),
        chains_present((sidecar.protocol_v4->0).effects),
{
    let payload = sidecar.protocol_v4->0;
    let pins = sidecar.tables;
    let findings = crate::shape::branch_merge::table_findings(payload, pins);
    let effect_ids = identities::<RecoveryBranchMergeEffect>(payload.effects);
    let pin_ids = identities::<SidecarTablePin>(pins);
    assert forall|i: int| 0 <= i < payload.effects.len() implies match (
    #[trigger] payload.effects[i]).kind {
        RecoveryBranchMergeEffectKindModel::MultiCommitHead { planned_transactions, .. } =>
            planned_transactions.len() > 0,
        RecoveryBranchMergeEffectKindModel::RefOnlyFork { .. } => true,
    } by {
        let identity = payload.effects[i].identity;
        assert(effect_ids[i] == identity);
        assert(pin_ids.contains(identity));
        let k = choose|k: int| 0 <= k < pin_ids.len() && pin_ids[k] == identity;
        assert(effect_ids.contains(identity));
        lemma_has_first_place(effect_ids, identity);
        let at = first_place(effect_ids, identity);
        assert(effect_ids[at] == effect_ids[i]);
        assert(effect_of(payload, pins[k]) == payload.effects[i]);
        lemma_all_sound(findings, k);
        assert(findings[k] == crate::shape::branch_merge::table_defect(
            payload.effect_phase,
            pins[k],
            payload.effects[i],
            slot_of(payload, pins[k]),
            uuids_before(payload, pins, k),
        ));
    }
}

} // verus!
