//! What a writer announces before it starts, and when it may.

use vstd::prelude::*;

use crate::arm::{
    arm_branch_merge_sidecar_v9, arm_ensure_indices_sidecar_v6, arm_ensure_indices_sidecar_v9,
    arm_occ_sidecar_v9, arm_optimize_sidecar_v9, arm_schema_apply_sidecar_v9, FreshIds,
};
use crate::error::OmniError;
use crate::identity::{IdentityMap, TableIdentity};
use crate::laws::storing::lemma_shape_ignores_place;
use crate::lookup::identities;
use crate::shape::validate::shape_fault;
use crate::sidecar::{
    RecoveryAuthorityToken, RecoveryBranchMergeEffect, RecoveryEffectPhase,
    RecoveryEnsureIndicesEffectModel, RecoveryLineageIntent, RecoveryManifestDelta,
    RecoveryManifestDeltaModel, RecoverySchemaApplyEffect, RecoverySidecar, RecoverySidecarModel,
    RecoveryTableEffectModel, SidecarKind, SidecarTablePin, SidecarTablePinModel,
    StagedTransactionIdentity, StagedTransactionIdentityModel,
};
use crate::value::{opt_view, views};

verus! {

/// Whether a sidecar is a new one of a generation and a writer: under the ids that it
/// was given, on its branch, for its actor, with its pins, and with nothing else.
pub open spec fn is_new(
    sidecar: RecoverySidecarModel,
    generation: u32,
    kind: SidecarKind,
    ids: FreshIds,
    branch: Option<Seq<char>>,
    actor_id: Option<Seq<char>>,
    tables: Seq<SidecarTablePinModel>,
) -> bool {
    &&& sidecar.schema_version == generation
    &&& sidecar.writer_kind == kind
    &&& sidecar.operation_id == ids.operation_id@
    &&& sidecar.started_at == ids.started_at@
    &&& sidecar.branch == branch
    &&& sidecar.actor_id == actor_id
    &&& sidecar.tables == tables
    &&& sidecar.merge_source_commit_id is None
    &&& sidecar.additional_registrations.len() == 0
    &&& sidecar.tombstones.len() == 0
    &&& !sidecar.schema_apply_manifest_published
    &&& sidecar.schema_apply_target_schema_ir_hash is None
}

/// Whether a delta holds one open slot for each pin, and nothing else.
pub open spec fn one_slot_each(
    delta: RecoveryManifestDeltaModel,
    pins: Seq<SidecarTablePinModel>,
) -> bool {
    &&& delta.registrations.len() == 0
    &&& delta.renames.len() == 0
    &&& delta.tombstones.len() == 0
    &&& delta.table_updates.len() == pins.len()
    &&& forall|i: int|
        0 <= i < pins.len() ==> {
            &&& (#[trigger] delta.table_updates[i]).identity == pins[i].identity
            &&& delta.table_updates[i].table_key == pins[i].table_key
            &&& delta.table_updates[i].expected_version == pins[i].expected_version
            &&& delta.table_updates[i].table_branch == pins[i].table_branch
            &&& delta.table_updates[i].confirmed is None
        }
}

/// Whether one transaction is planned for each pinned table, of which there is one at
/// least and none twice, and for no other.
pub open spec fn one_plan_each(
    pins: Seq<SidecarTablePinModel>,
    planned: Map<TableIdentity, StagedTransactionIdentityModel>,
) -> bool {
    &&& pins.len() > 0
    &&& planned.dom().len() == pins.len()
    &&& forall|i: int, j: int|
        0 <= i < j < pins.len() ==> (#[trigger] pins[i]).identity != (#[trigger] pins[j]).identity
    &&& forall|i: int|
        0 <= i < pins.len() ==> planned.dom().contains((#[trigger] pins[i]).identity)
}

/// A mutation or load announces one transaction for each table that it pins, and one
/// output slot with what it expects of the manifest; nothing is confirmed and no
/// rollback is planned. Every other writer is refused, and so is a plan that is not one
/// for each table.
pub proof fn lemma_what_a_mutation_announces(
    ids: FreshIds,
    kind: SidecarKind,
    branch: Option<String>,
    actor_id: Option<String>,
    tables: Vec<SidecarTablePin>,
    authority: RecoveryAuthorityToken,
    lineage: RecoveryLineageIntent,
    planned: &IdentityMap<StagedTransactionIdentity>,
    result: Result<RecoverySidecar, OmniError>,
)
    requires
        call_ensures(
            arm_occ_sidecar_v9,
            (ids, kind, branch, actor_id, tables, authority, lineage, planned),
            result,
        ),
    ensures
        ({
            let pins = views(tables@);
            let sidecar = result->Ok_0@;
            let payload = sidecar.protocol_v3->0;
            &&& result is Ok ==> {
                &&& kind == SidecarKind::Mutation || kind == SidecarKind::Load
                &&& one_plan_each(pins, planned@)
                &&& is_new(
                    sidecar,
                    9,
                    kind,
                    ids,
                    opt_view(branch),
                    opt_view(actor_id),
                    pins,
                )
                &&& sidecar.protocol_v3 is Some
                &&& sidecar.protocol_v4 is None
                &&& sidecar.protocol_v7 is None
                &&& sidecar.protocol_v8 is None
                &&& sidecar.ensure_indices_rollback_v6 is None
                &&& payload.authority == authority@
                &&& payload.lineage == lineage@
                &&& payload.rollback_graph_commit_id == ids.rollback_graph_commit_id@
                &&& payload.rollback_audit_outcomes is None
                &&& payload.effect_phase == RecoveryEffectPhase::Armed
                &&& one_slot_each(payload.intended_delta, pins)
                &&& payload.effects.len() == pins.len()
                &&& forall|i: int|
                    0 <= i < pins.len() ==> {
                        &&& (#[trigger] payload.effects[i]).identity == pins[i].identity
                        &&& payload.effects[i].table_key == pins[i].table_key
                        &&& payload.effects[i].planned_transaction == planned@[pins[i].identity]
                        &&& payload.effects[i].confirmed_transaction is None
                    }
            }
        }),
{
    if result is Ok {
        lemma_distinct(views(tables@));
    }
}

proof fn lemma_distinct(pins: Seq<SidecarTablePinModel>)
    ensures
        identities::<SidecarTablePin>(pins).no_duplicates() <==> (forall|i: int, j: int|
            0 <= i < j < pins.len() ==> (#[trigger] pins[i]).identity != (
            #[trigger] pins[j]).identity),
{
    let list = identities::<SidecarTablePin>(pins);
    if list.no_duplicates() {
        assert forall|i: int, j: int| 0 <= i < j < pins.len() implies (#[trigger] pins[i]).identity
            != (#[trigger] pins[j]).identity by {
            assert(list[i] != list[j]);
        }
    }
}

/// An ensure-indices run announces one transaction for each table that it pins, the
/// version at which it forks it where it does, and one output slot with what it expects
/// of the manifest; nothing is confirmed and no rollback is planned.
pub proof fn lemma_what_an_index_run_announces(
    ids: FreshIds,
    branch: Option<String>,
    actor_id: Option<String>,
    tables: Vec<SidecarTablePin>,
    authority: RecoveryAuthorityToken,
    lineage: RecoveryLineageIntent,
    planned: &IdentityMap<StagedTransactionIdentity>,
    forks: &IdentityMap<u64>,
    result: Result<RecoverySidecar, OmniError>,
)
    requires
        call_ensures(
            arm_ensure_indices_sidecar_v9,
            (ids, branch, actor_id, tables, authority, lineage, planned, forks),
            result,
        ),
    ensures
        ({
            let pins = views(tables@);
            let sidecar = result->Ok_0@;
            let payload = sidecar.protocol_v8->0;
            &&& result is Ok ==> {
                &&& one_plan_each(pins, planned@)
                &&& forall|identity: TableIdentity| #[trigger]
                    forks@.contains_key(identity) ==> exists|i: int|
                        0 <= i < pins.len() && (#[trigger] pins[i]).identity == identity
                &&& is_new(
                    sidecar,
                    9,
                    SidecarKind::EnsureIndices,
                    ids,
                    opt_view(branch),
                    opt_view(actor_id),
                    pins,
                )
                &&& sidecar.protocol_v3 is None
                &&& sidecar.protocol_v4 is None
                &&& sidecar.protocol_v7 is None
                &&& sidecar.protocol_v8 is Some
                &&& sidecar.ensure_indices_rollback_v6 is None
                &&& payload.authority == authority@
                &&& payload.lineage == lineage@
                &&& payload.rollback_graph_commit_id == ids.rollback_graph_commit_id@
                &&& payload.rollback_audit_outcomes is None
                &&& payload.effect_phase == RecoveryEffectPhase::Armed
                &&& one_slot_each(payload.intended_delta, pins)
                &&& payload.effects.len() == pins.len()
                &&& forall|i: int|
                    0 <= i < pins.len() ==> {
                        &&& (#[trigger] payload.effects[i]).identity == pins[i].identity
                        &&& payload.effects[i].table_key == pins[i].table_key
                        &&& payload.effects[i].planned_transaction == planned@[pins[i].identity]
                        &&& payload.effects[i].source_fork_version is Some <==> forks@.contains_key(
                            pins[i].identity,
                        )
                        &&& payload.effects[i].source_fork_version is Some
                            ==> payload.effects[i].source_fork_version->0
                            == forks@[pins[i].identity]
                        &&& payload.effects[i].confirmed_transaction is None
                        &&& payload.effects[i].confirmed_branch_identifier is None
                    }
            }
        }),
{
    if result is Ok {
        let pins = views(tables@);
        lemma_distinct(pins);
        assert forall|identity: TableIdentity| #[trigger]
            forks@.contains_key(identity) implies exists|i: int|
            0 <= i < pins.len() && (#[trigger] pins[i]).identity == identity by {
            let list = identities::<SidecarTablePin>(pins);
            assert(list.contains(identity));
            let i = choose|i: int| 0 <= i < list.len() && list[i] == identity;
            assert(pins[i].identity == identity);
        }
    }
}

/// A schema apply announces, on main, exactly the effects, the delta and the target
/// schema that it was given; no rollback is planned.
pub proof fn lemma_what_a_schema_apply_announces(
    ids: FreshIds,
    actor_id: Option<String>,
    tables: Vec<SidecarTablePin>,
    authority: RecoveryAuthorityToken,
    lineage: RecoveryLineageIntent,
    effects: Vec<RecoverySchemaApplyEffect>,
    delta: RecoveryManifestDelta,
    target: String,
    result: Result<RecoverySidecar, OmniError>,
)
    requires
        call_ensures(
            arm_schema_apply_sidecar_v9,
            (ids, actor_id, tables, authority, lineage, effects, delta, target),
            result,
        ),
    ensures
        ({
            let sidecar = result->Ok_0@;
            let payload = sidecar.protocol_v7->0;
            &&& result is Ok ==> {
                &&& is_new(
                    sidecar,
                    9,
                    SidecarKind::SchemaApply,
                    ids,
                    None,
                    opt_view(actor_id),
                    views(tables@),
                )
                &&& sidecar.protocol_v3 is None
                &&& sidecar.protocol_v4 is None
                &&& sidecar.protocol_v7 is Some
                &&& sidecar.protocol_v8 is None
                &&& sidecar.ensure_indices_rollback_v6 is None
                &&& payload.authority == authority@
                &&& payload.lineage == lineage@
                &&& payload.rollback_graph_commit_id == ids.rollback_graph_commit_id@
                &&& payload.rollback_audit_outcomes is None
                &&& payload.target_schema_ir_hash == target@
                &&& payload.effect_phase == RecoveryEffectPhase::Armed
                &&& payload.effects == views(effects@)
                &&& payload.intended_delta == delta@
            }
        }),
{
}

/// A branch merge announces exactly the effects and the delta that it was given; no
/// rollback is planned.
pub proof fn lemma_what_a_merge_announces(
    ids: FreshIds,
    branch: Option<String>,
    actor_id: Option<String>,
    tables: Vec<SidecarTablePin>,
    authority: RecoveryAuthorityToken,
    lineage: RecoveryLineageIntent,
    effects: Vec<RecoveryBranchMergeEffect>,
    delta: RecoveryManifestDelta,
    result: Result<RecoverySidecar, OmniError>,
)
    requires
        call_ensures(
            arm_branch_merge_sidecar_v9,
            (ids, branch, actor_id, tables, authority, lineage, effects, delta),
            result,
        ),
    ensures
        ({
            let sidecar = result->Ok_0@;
            let payload = sidecar.protocol_v4->0;
            &&& result is Ok ==> {
                &&& is_new(
                    sidecar,
                    9,
                    SidecarKind::BranchMerge,
                    ids,
                    opt_view(branch),
                    opt_view(actor_id),
                    views(tables@),
                )
                &&& sidecar.protocol_v3 is None
                &&& sidecar.protocol_v4 is Some
                &&& sidecar.protocol_v7 is None
                &&& sidecar.protocol_v8 is None
                &&& sidecar.ensure_indices_rollback_v6 is None
                &&& payload.authority == authority@
                &&& payload.lineage == lineage@
                &&& payload.rollback_graph_commit_id == ids.rollback_graph_commit_id@
                &&& payload.rollback_audit_outcomes is None
                &&& payload.effect_phase == RecoveryEffectPhase::Armed
                &&& payload.effects == views(effects@)
                &&& payload.intended_delta == delta@
            }
        }),
{
}

/// Maintenance announces its pins alone, and an ensure-indices run without an exact
/// payload its pins and its rollback.
pub proof fn lemma_what_loose_writers_announce(
    ids: FreshIds,
    branch: Option<String>,
    tables: Vec<SidecarTablePin>,
    optimized: Result<RecoverySidecar, OmniError>,
    indexed: Result<RecoverySidecar, OmniError>,
)
    requires
        call_ensures(arm_optimize_sidecar_v9, (ids, tables), optimized),
        call_ensures(arm_ensure_indices_sidecar_v6, (ids, branch, tables), indexed),
    ensures
        optimized is Ok ==> {
            let sidecar = optimized->Ok_0@;
            &&& is_new(sidecar, 9, SidecarKind::Optimize, ids, None, None, views(tables@))
            &&& sidecar.protocol_v3 is None
            &&& sidecar.protocol_v4 is None
            &&& sidecar.protocol_v7 is None
            &&& sidecar.protocol_v8 is None
            &&& sidecar.ensure_indices_rollback_v6 is None
        },
        indexed is Ok ==> {
            let sidecar = indexed->Ok_0@;
            let rollback = sidecar.ensure_indices_rollback_v6;
            &&& is_new(
                sidecar,
                6,
                SidecarKind::EnsureIndices,
                ids,
                opt_view(branch),
                None,
                views(tables@),
            )
            &&& sidecar.protocol_v3 is None
            &&& sidecar.protocol_v4 is None
            &&& sidecar.protocol_v7 is None
            &&& sidecar.protocol_v8 is None
            &&& rollback is Some
            &&& rollback->0.rollback_graph_commit_id == ids.rollback_graph_commit_id@
            &&& rollback->0.rollback_audit_outcomes is None
        },
{
}

/// Whether a sidecar keeps the rules.
pub open spec fn keeps_rules(sidecar: RecoverySidecarModel) -> bool {
    forall|uri: Seq<char>| #[trigger] shape_fault(uri, sidecar) is None
}

/// A mutation or load with one plan for each table may start exactly where the sidecar
/// that announces it keeps the rules, and gets that sidecar.
pub proof fn lemma_when_a_mutation_may_start(
    ids: FreshIds,
    branch: Option<String>,
    actor_id: Option<String>,
    tables: Vec<SidecarTablePin>,
    authority: RecoveryAuthorityToken,
    lineage: RecoveryLineageIntent,
    planned: &IdentityMap<StagedTransactionIdentity>,
    result: Result<RecoverySidecar, OmniError>,
    kind: SidecarKind,
    announced: RecoverySidecarModel,
)
    requires
        call_ensures(
            arm_occ_sidecar_v9,
            (ids, kind, branch, actor_id, tables, authority, lineage, planned),
            result,
        ),
        kind == SidecarKind::Mutation || kind == SidecarKind::Load,
        one_plan_each(views(tables@), planned@),
        is_new(announced, 9, kind, ids, opt_view(branch), opt_view(actor_id), views(tables@)),
        announced.protocol_v3 is Some,
        announced.protocol_v4 is None,
        announced.protocol_v7 is None,
        announced.protocol_v8 is None,
        announced.ensure_indices_rollback_v6 is None,
        ({
            let payload = announced.protocol_v3->0;
            let pins = views(tables@);
            &&& payload.authority == authority@
            &&& payload.lineage == lineage@
            &&& payload.rollback_graph_commit_id == ids.rollback_graph_commit_id@
            &&& payload.rollback_audit_outcomes is None
            &&& payload.effect_phase == RecoveryEffectPhase::Armed
            &&& one_slot_each(payload.intended_delta, pins)
            &&& payload.effects.len() == pins.len()
            &&& forall|i: int|
                0 <= i < pins.len() ==> #[trigger] payload.effects[i] == (
                RecoveryTableEffectModel {
                    identity: pins[i].identity,
                    table_key: pins[i].table_key,
                    planned_transaction: planned@[pins[i].identity],
                    confirmed_transaction: None,
                })
        }),
    ensures
        result is Ok <==> keeps_rules(announced),
        result is Ok ==> result->Ok_0@ == announced,
{
    let pins = views(tables@);
    lemma_distinct(pins);
    let payload = announced.protocol_v3->0;
    assert(payload.effects =~= crate::arm::armed_effects(pins, planned@));
    lemma_open_delta(payload.intended_delta, pins);
    assert(announced.additional_registrations =~= Seq::empty());
    assert(announced.tombstones =~= Seq::empty());
    lemma_rules(announced, "<new-occ-sidecar>"@);
}

/// An ensure-indices run with one plan for each table, that forks only tables of its
/// own, may start exactly where the sidecar that announces it keeps the rules, and gets
/// that sidecar.
pub proof fn lemma_when_an_index_run_may_start(
    ids: FreshIds,
    branch: Option<String>,
    actor_id: Option<String>,
    tables: Vec<SidecarTablePin>,
    authority: RecoveryAuthorityToken,
    lineage: RecoveryLineageIntent,
    planned: &IdentityMap<StagedTransactionIdentity>,
    forks: &IdentityMap<u64>,
    result: Result<RecoverySidecar, OmniError>,
    announced: RecoverySidecarModel,
)
    requires
        call_ensures(
            arm_ensure_indices_sidecar_v9,
            (ids, branch, actor_id, tables, authority, lineage, planned, forks),
            result,
        ),
        one_plan_each(views(tables@), planned@),
        forall|identity: TableIdentity| #[trigger]
            forks@.contains_key(identity) ==> exists|i: int|
                0 <= i < tables@.len() && (#[trigger] views(tables@)[i]).identity == identity,
        is_new(
            announced,
            9,
            SidecarKind::EnsureIndices,
            ids,
            opt_view(branch),
            opt_view(actor_id),
            views(tables@),
        ),
        announced.protocol_v3 is None,
        announced.protocol_v4 is None,
        announced.protocol_v7 is None,
        announced.protocol_v8 is Some,
        announced.ensure_indices_rollback_v6 is None,
        ({
            let payload = announced.protocol_v8->0;
            let pins = views(tables@);
            &&& payload.authority == authority@
            &&& payload.lineage == lineage@
            &&& payload.rollback_graph_commit_id == ids.rollback_graph_commit_id@
            &&& payload.rollback_audit_outcomes is None
            &&& payload.effect_phase == RecoveryEffectPhase::Armed
            &&& one_slot_each(payload.intended_delta, pins)
            &&& payload.effects.len() == pins.len()
            &&& forall|i: int|
                0 <= i < pins.len() ==> #[trigger] payload.effects[i] == (
                RecoveryEnsureIndicesEffectModel {
                    identity: pins[i].identity,
                    table_key: pins[i].table_key,
                    planned_transaction: planned@[pins[i].identity],
                    source_fork_version: if forks@.contains_key(pins[i].identity) {
                        Some(forks@[pins[i].identity])
                    } else {
                        None
                    },
                    confirmed_transaction: None,
                    confirmed_branch_identifier: None,
                })
        }),
    ensures
        result is Ok <==> keeps_rules(announced),
        result is Ok ==> result->Ok_0@ == announced,
{
    let pins = views(tables@);
    lemma_distinct(pins);
    let payload = announced.protocol_v8->0;
    assert(payload.effects =~= crate::arm::armed_index_effects(pins, planned@, forks@));
    lemma_open_delta(payload.intended_delta, pins);
    assert(crate::arm::forks_pinned(pins, forks@)) by {
        let list = identities::<SidecarTablePin>(pins);
        assert forall|identity: TableIdentity| #[trigger]
            forks@.contains_key(identity) implies list.contains(identity) by {
            let i = choose|i: int|
                0 <= i < tables@.len() && (#[trigger] views(tables@)[i]).identity == identity;
            assert(list[i] == identity);
        }
    }
    assert(announced.additional_registrations =~= Seq::empty());
    assert(announced.tombstones =~= Seq::empty());
    lemma_rules(announced, "<new-ensure-indices-v9-sidecar>"@);
}

proof fn lemma_open_delta(delta: RecoveryManifestDeltaModel, pins: Seq<SidecarTablePinModel>)
    requires
        one_slot_each(delta, pins),
    ensures
        delta == crate::arm::open_delta(pins),
{
    let slots = delta.table_updates;
    assert forall|i: int| 0 <= i < slots.len() implies #[trigger] slots[i]
        == crate::arm::open_slots(pins)[i] by {}
    assert(slots =~= crate::arm::open_slots(pins));
    let open = crate::arm::open_delta(pins);
    assert(delta.registrations =~= open.registrations);
    assert(delta.renames =~= open.renames);
    assert(delta.tombstones =~= open.tombstones);
}

proof fn lemma_rules(sidecar: RecoverySidecarModel, label: Seq<char>)
    ensures
        keeps_rules(sidecar) <==> shape_fault(label, sidecar) is None,
{
    assert forall|uri: Seq<char>| #[trigger] shape_fault(uri, sidecar) is None <==> shape_fault(
        label,
        sidecar,
    ) is None by {
        lemma_shape_ignores_place(uri, label, sidecar);
    }
}

/// A schema apply may start exactly where the sidecar that announces it keeps the
/// rules, and gets that sidecar.
pub proof fn lemma_when_a_schema_apply_may_start(
    ids: FreshIds,
    actor_id: Option<String>,
    tables: Vec<SidecarTablePin>,
    authority: RecoveryAuthorityToken,
    lineage: RecoveryLineageIntent,
    effects: Vec<RecoverySchemaApplyEffect>,
    delta: RecoveryManifestDelta,
    target: String,
    result: Result<RecoverySidecar, OmniError>,
    announced: RecoverySidecarModel,
)
    requires
        call_ensures(
            arm_schema_apply_sidecar_v9,
            (ids, actor_id, tables, authority, lineage, effects, delta, target),
            result,
        ),
        is_new(
            announced,
            9,
            SidecarKind::SchemaApply,
            ids,
            None,
            opt_view(actor_id),
            views(tables@),
        ),
        announced.protocol_v3 is None,
        announced.protocol_v4 is None,
        announced.protocol_v7 is Some,
        announced.protocol_v8 is None,
        announced.ensure_indices_rollback_v6 is None,
        ({
            let payload = announced.protocol_v7->0;
            &&& payload.authority == authority@
            &&& payload.lineage == lineage@
            &&& payload.rollback_graph_commit_id == ids.rollback_graph_commit_id@
            &&& payload.rollback_audit_outcomes is None
            &&& payload.target_schema_ir_hash == target@
            &&& payload.effect_phase == RecoveryEffectPhase::Armed
            &&& payload.effects == views(effects@)
            &&& payload.intended_delta == delta@
        }),
    ensures
        result is Ok <==> keeps_rules(announced),
        result is Ok ==> result->Ok_0@ == announced,
{
    assert(announced.additional_registrations =~= Seq::empty());
    assert(announced.tombstones =~= Seq::empty());
    lemma_rules(announced, "<new-schema-apply-v9-sidecar>"@);
}

/// A branch merge may start exactly where the sidecar that announces it keeps the
/// rules, and gets that sidecar.
pub proof fn lemma_when_a_merge_may_start(
    ids: FreshIds,
    branch: Option<String>,
    actor_id: Option<String>,
    tables: Vec<SidecarTablePin>,
    authority: RecoveryAuthorityToken,
    lineage: RecoveryLineageIntent,
    effects: Vec<RecoveryBranchMergeEffect>,
    delta: RecoveryManifestDelta,
    result: Result<RecoverySidecar, OmniError>,
    announced: RecoverySidecarModel,
)
    requires
        call_ensures(
            arm_branch_merge_sidecar_v9,
            (ids, branch, actor_id, tables, authority, lineage, effects, delta),
            result,
        ),
        is_new(
            announced,
            9,
            SidecarKind::BranchMerge,
            ids,
            opt_view(branch),
            opt_view(actor_id),
            views(tables@),
        ),
        announced.protocol_v3 is None,
        announced.protocol_v4 is Some,
        announced.protocol_v7 is None,
        announced.protocol_v8 is None,
        announced.ensure_indices_rollback_v6 is None,
        ({
            let payload = announced.protocol_v4->0;
            &&& payload.authority == authority@
            &&& payload.lineage == lineage@
            &&& payload.rollback_graph_commit_id == ids.rollback_graph_commit_id@
            &&& payload.rollback_audit_outcomes is None
            &&& payload.effect_phase == RecoveryEffectPhase::Armed
            &&& payload.effects == views(effects@)
            &&& payload.intended_delta == delta@
        }),
    ensures
        result is Ok <==> keeps_rules(announced),
        result is Ok ==> result->Ok_0@ == announced,
{
    assert(announced.additional_registrations =~= Seq::empty());
    assert(announced.tombstones =~= Seq::empty());
    lemma_rules(announced, "<new-branch-merge-sidecar>"@);
}

} // verus!
