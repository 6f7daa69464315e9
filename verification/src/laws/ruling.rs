//! The rules that a sidecar keeps, writer by writer.

use vstd::prelude::*;

use crate::identity::{path_of, TableIdentity};
use crate::laws::classifying::{
    confirmed_ref, forked_at, lemma_reported_is_the_first, off_main, rewrite_of, rewritten_by,
};
use crate::laws::ending::branch_in_lineage;
use crate::laws::reaching::{confirmed_head, planned_chain};
use crate::laws::restoring::alias_before;
use crate::lookup::{aliases, find_by_identity, identities, planned_uuids, same_elements, within};
use crate::shape::branch_merge::{
    branch_merge_v4_defect, chain_defect, chain_uuids, step_findings, uuids_before,
};
use crate::shape::defect::{first_defect, pin_findings, pins_defect, plan_sound};
use crate::shape::ensure_indices::{ensure_indices_v6_defect, ensure_indices_v8_defect};
use crate::shape::mutation_load::mutation_load_defect;
use crate::shape::optimize::optimize_v9_defect;
use crate::shape::schema_apply::{
    binding_findings, live_bindings, registration_fault, registration_findings, rename_fault,
    rename_findings, schema_apply_v7_fault,
};
use crate::shape::validate::{ownership_fault, pin_path_findings, shape_fault};
use crate::sidecar::{
    RecoveryAuthorityTokenModel, RecoveryBranchMergeEffect, RecoveryBranchMergeEffectModel,
    RecoveryEffectPhase, RecoveryEnsureIndicesEffect, RecoveryEnsureIndicesEffectModel,
    RecoveryManifestDeltaModel, RecoveryProtocolV4Model, RecoveryProtocolV7Model,
    RecoverySchemaApplyEffect, RecoverySchemaApplyEffectModel, RecoverySidecarModel,
    RecoveryTableEffect, RecoveryTableEffectModel, RecoveryTableUpdateSlot,
    RecoveryTableUpdateSlotModel, SidecarKind, SidecarTablePin, SidecarTablePinModel,
    SidecarTableRegistration, SidecarTableRegistrationModel, SidecarTableRename,
    SidecarTableRenameModel, SidecarTombstone, StagedTransactionIdentityModel, TableOutcome,
    TableOutcomeModel,
};
use crate::text::{ends_with, trimmed_end};

verus! {

/// Whether an identity is one that a table can have.
pub open spec fn genuine(identity: TableIdentity) -> bool {
    identity.stable_table_id != 0 && identity.table_incarnation_id != 0
}

/// Whether a pin is of a real table, under an alias of a known kind, at the place that
/// goes with both.
pub open spec fn placed(pin: SidecarTablePinModel) -> bool {
    let path = path_of(pin.table_key, pin.identity);
    &&& genuine(pin.identity)
    &&& path is Some
    &&& trimmed_end(pin.table_path) == path->0 || ends_with(
        trimmed_end(pin.table_path),
        "/"@ + path->0,
    )
}

/// Whether every pin is placed, and no two of them have the same identity or the same
/// alias.
pub open spec fn pins_in_order(pins: Seq<SidecarTablePinModel>) -> bool {
    &&& forall|i: int| 0 <= i < pins.len() ==> placed(#[trigger] pins[i])
    &&& forall|i: int, j: int|
        0 <= i < j < pins.len() ==> (#[trigger] pins[i]).identity != (#[trigger] pins[j]).identity
            && pins[i].table_key != pins[j].table_key
}

proof fn lemma_pins_in_order(pins: Seq<SidecarTablePinModel>, some: bool)
    ensures
        pins_defect(pins, some) is None <==> pins_in_order(pins) && (some ==> pins.len() > 0),
{
    let findings = pin_findings(pins);
    lemma_reported_is_the_first(findings);
    assert forall|i: int| 0 <= i < pins.len() implies (#[trigger] findings[i] is None <==> placed(
        pins[i],
    ) && forall|j: int|
        0 <= j < i ==> (#[trigger] pins[j]).identity != pins[i].identity && pins[j].table_key
            != pins[i].table_key) by {
        let before = pins.subrange(0, i);
        let ids = identities::<SidecarTablePin>(before);
        let keys = aliases::<SidecarTablePin>(before);
        if ids.contains(pins[i].identity) {
            let j = choose|j: int| 0 <= j < ids.len() && ids[j] == pins[i].identity;
            assert(pins[j].identity == pins[i].identity);
        }
        if keys.contains(pins[i].table_key) {
            let j = choose|j: int| 0 <= j < keys.len() && keys[j] == pins[i].table_key;
            assert(pins[j].table_key == pins[i].table_key);
        }
        if exists|j: int|
            0 <= j < i && ((#[trigger] pins[j]).identity == pins[i].identity || pins[j].table_key
                == pins[i].table_key) {
            let j = choose|j: int|
                0 <= j < i && ((#[trigger] pins[j]).identity == pins[i].identity
                    || pins[j].table_key == pins[i].table_key);
            assert(before[j] == pins[j]);
            assert(ids[j] == pins[j].identity);
            assert(keys[j] == pins[j].table_key);
        }
    }
    if pins_in_order(pins) {
        assert forall|i: int| 0 <= i < findings.len() implies (#[trigger] findings[i]) is None by {}
    }
    if first_defect(findings) is None {
        assert forall|i: int| 0 <= i < pins.len() implies placed(#[trigger] pins[i]) by {
            assert(findings[i] is None);
        }
        assert forall|i: int, j: int| 0 <= i < j < pins.len() implies (#[trigger] pins[i]).identity
            != (#[trigger] pins[j]).identity && pins[i].table_key != pins[j].table_key by {
            assert(findings[j] is None);
        }
    }
}

/// Whether a plan, where there is one, names tables out of a list, each once.
pub open spec fn plan_in_order(
    plan: Option<Seq<TableOutcomeModel>>,
    names: spec_fn(Seq<char>) -> bool,
) -> bool {
    plan is Some ==> {
        &&& forall|i: int|
            0 <= i < plan->0.len() ==> names((#[trigger] plan->0[i]).table_key)
        &&& forall|i: int, j: int|
            0 <= i < j < plan->0.len() ==> (#[trigger] plan->0[i]).table_key != (
            #[trigger] plan->0[j]).table_key
    }
}

/// Whether a table is pinned under an alias.
pub open spec fn pinned_as(pins: Seq<SidecarTablePinModel>, alias: Seq<char>) -> bool {
    exists|i: int| 0 <= i < pins.len() && (#[trigger] pins[i]).table_key == alias
}

proof fn lemma_plan_in_order(
    plan: Option<Seq<TableOutcomeModel>>,
    pins: Seq<SidecarTablePinModel>,
)
    ensures
        plan_sound(plan, pins) <==> plan_in_order(plan, |alias: Seq<char>| pinned_as(pins, alias)),
{
    if plan is Some {
        let outcomes = plan->0;
        let told = aliases::<TableOutcome>(outcomes);
        let keys = aliases::<SidecarTablePin>(pins);
        lemma_names(outcomes, keys);
        assert forall|alias: Seq<char>| pinned_as(pins, alias) <==> #[trigger] keys.contains(
            alias,
        ) by {
            if pinned_as(pins, alias) {
                let i = choose|i: int|
                    0 <= i < pins.len() && (#[trigger] pins[i]).table_key == alias;
                assert(keys[i] == alias);
            }
            if keys.contains(alias) {
                let i = choose|i: int| 0 <= i < keys.len() && keys[i] == alias;
                assert(pins[i].table_key == alias);
            }
        }
    }
}

proof fn lemma_names(outcomes: Seq<TableOutcomeModel>, keys: Seq<Seq<char>>)
    ensures
        within(aliases::<TableOutcome>(outcomes), keys) <==> (forall|i: int|
            0 <= i < outcomes.len() ==> keys.contains((#[trigger] outcomes[i]).table_key)),
        aliases::<TableOutcome>(outcomes).no_duplicates() <==> (forall|i: int, j: int|
            0 <= i < j < outcomes.len() ==> (#[trigger] outcomes[i]).table_key != (
            #[trigger] outcomes[j]).table_key),
{
    let told = aliases::<TableOutcome>(outcomes);
    if within(told, keys) {
        assert forall|i: int| 0 <= i < outcomes.len() implies keys.contains(
            (#[trigger] outcomes[i]).table_key,
        ) by {
            assert(keys.contains(told[i]));
        }
    }
    if told.no_duplicates() {
        assert forall|i: int, j: int| 0 <= i < j < outcomes.len() implies (
        #[trigger] outcomes[i]).table_key != (#[trigger] outcomes[j]).table_key by {
            assert(told[i] != told[j]);
        }
    }
}

/// Whether an authority says which schema it was captured with.
pub open spec fn tells_schema(authority: RecoveryAuthorityTokenModel) -> bool {
    &&& authority.schema_identity_domain.len() > 0
    &&& authority.schema_ir_hash.len() > 0
    &&& authority.schema_identity_version > 0
}

/// Whether a delta only updates tables.
pub open spec fn only_updates(delta: RecoveryManifestDeltaModel) -> bool {
    delta.registrations.len() == 0 && delta.renames.len() == 0 && delta.tombstones.len() == 0
}

/// Whether one table of a mutation or load is consistent: pin, effect and slot agree on
/// the alias, the version and the branch that the attempt starts from; and nothing is
/// confirmed of an armed one, and everything, by the planned transaction, of a
/// confirmed one.
pub open spec fn mutation_table(
    phase: RecoveryEffectPhase,
    pin: SidecarTablePinModel,
    effect: RecoveryTableEffectModel,
    slot: RecoveryTableUpdateSlotModel,
) -> bool {
    &&& effect.table_key == pin.table_key
    &&& slot.table_key == pin.table_key
    &&& effect.planned_transaction.read_version == pin.expected_version
    &&& slot.expected_version == pin.expected_version
    &&& slot.table_branch == pin.table_branch
    &&& match phase {
        RecoveryEffectPhase::Armed => {
            &&& effect.confirmed_transaction is None
            &&& slot.confirmed is None
            &&& pin.confirmed_version is None
        },
        RecoveryEffectPhase::EffectsConfirmed => {
            &&& effect.confirmed_transaction == Some(effect.planned_transaction)
            &&& slot.confirmed is Some
            &&& pin.confirmed_version == Some(slot.confirmed->0.table_version)
            &&& slot.confirmed->0.table_branch == pin.table_branch
        },
    }
}

/// A mutation or load keeps the rules exactly where it carries its own payload alone; the
/// payload tells its schema and only updates tables; branch and actor are those of the
/// lineage, which merges nothing; the two fixed commits differ; the pins are in order; a
/// plan names pinned tables; every pinned table has one effect, with an id of its own,
/// and one slot; and every table is consistent.
pub proof fn lemma_rules_of_a_mutation(sidecar: RecoverySidecarModel)
    ensures
        ({
            let payload = sidecar.protocol_v3->0;
            let pins = sidecar.tables;
            let effects = payload.effects;
            let slots = payload.intended_delta.table_updates;
            mutation_load_defect(sidecar) is None <==> {
                &&& sidecar.protocol_v3 is Some
                &&& sidecar.protocol_v4 is None
                &&& sidecar.protocol_v7 is None
                &&& sidecar.protocol_v8 is None
                &&& sidecar.ensure_indices_rollback_v6 is None
                &&& sidecar.merge_source_commit_id is None
                &&& !sidecar.schema_apply_manifest_published
                &&& sidecar.schema_apply_target_schema_ir_hash is None
                &&& sidecar.additional_registrations.len() == 0
                &&& sidecar.tombstones.len() == 0
                &&& tells_schema(payload.authority)
                &&& only_updates(payload.intended_delta)
                &&& branch_in_lineage(sidecar.branch) == branch_in_lineage(payload.lineage.branch)
                &&& sidecar.actor_id == payload.lineage.actor_id
                &&& payload.lineage.merged_parent_commit_id is None
                &&& payload.rollback_graph_commit_id != payload.lineage.graph_commit_id
                &&& pins_in_order(pins)
                &&& plan_in_order(
                    payload.rollback_audit_outcomes,
                    |alias: Seq<char>| pinned_as(pins, alias),
                )
                &&& identities::<RecoveryTableEffect>(effects).no_duplicates()
                &&& planned_uuids::<RecoveryTableEffect>(effects).no_duplicates()
                &&& identities::<RecoveryTableUpdateSlot>(slots).no_duplicates()
                &&& forall|identity: TableIdentity| #[trigger]
                    identities::<RecoveryTableEffect>(effects).contains(identity)
                        <==> identities::<SidecarTablePin>(pins).contains(identity)
                &&& forall|identity: TableIdentity| #[trigger]
                    identities::<RecoveryTableUpdateSlot>(slots).contains(identity)
                        <==> identities::<SidecarTablePin>(pins).contains(identity)
                &&& forall|i: int|
                    0 <= i < pins.len() ==> mutation_table(
                        payload.effect_phase,
                        #[trigger] pins[i],
                        find_by_identity::<RecoveryTableEffect>(effects, pins[i].identity)->0,
                        find_by_identity::<RecoveryTableUpdateSlot>(slots, pins[i].identity)->0,
                    )
            }
        }),
{
    let payload = sidecar.protocol_v3->0;
    let pins = sidecar.tables;
    let effects = payload.effects;
    let slots = payload.intended_delta.table_updates;
    lemma_pins_in_order(pins, false);
    lemma_plan_in_order(payload.rollback_audit_outcomes, pins);
    lemma_same(
        identities::<RecoveryTableEffect>(effects),
        identities::<SidecarTablePin>(pins),
    );
    lemma_same(
        identities::<RecoveryTableUpdateSlot>(slots),
        identities::<SidecarTablePin>(pins),
    );
    let findings = crate::shape::mutation_load::table_findings(payload, pins);
    lemma_reported_is_the_first(findings);
    assert forall|i: int| 0 <= i < pins.len() implies (mutation_table(
        payload.effect_phase,
        #[trigger] pins[i],
        find_by_identity::<RecoveryTableEffect>(effects, pins[i].identity)->0,
        find_by_identity::<RecoveryTableUpdateSlot>(slots, pins[i].identity)->0,
    ) <==> findings[i] is None) by {}
    if first_defect(findings) is None {
        assert forall|i: int| 0 <= i < pins.len() implies mutation_table(
            payload.effect_phase,
            #[trigger] pins[i],
            find_by_identity::<RecoveryTableEffect>(effects, pins[i].identity)->0,
            find_by_identity::<RecoveryTableUpdateSlot>(slots, pins[i].identity)->0,
        ) by {
            assert(findings[i] is None);
        }
    }
    if forall|i: int|
        0 <= i < pins.len() ==> mutation_table(
            payload.effect_phase,
            #[trigger] pins[i],
            find_by_identity::<RecoveryTableEffect>(effects, pins[i].identity)->0,
            find_by_identity::<RecoveryTableUpdateSlot>(slots, pins[i].identity)->0,
        ) {
        assert forall|i: int| 0 <= i < findings.len() implies (#[trigger] findings[i]) is None by {
            let pin = pins[i];
        }
    }
}

proof fn lemma_same(left: Seq<TableIdentity>, right: Seq<TableIdentity>)
    ensures
        same_elements(left, right) <==> (forall|identity: TableIdentity| #[trigger]
            left.contains(identity) <==> right.contains(identity)),
        same_elements(right, left) <==> (forall|identity: TableIdentity| #[trigger]
            left.contains(identity) <==> right.contains(identity)),
{
    if same_elements(left, right) {
        assert forall|identity: TableIdentity| #[trigger] left.contains(identity)
            <==> right.contains(identity) by {
            if left.contains(identity) {
                let i = choose|i: int| 0 <= i < left.len() && left[i] == identity;
                assert(right.contains(left[i]));
            }
            if right.contains(identity) {
                let i = choose|i: int| 0 <= i < right.len() && right[i] == identity;
                assert(left.contains(right[i]));
            }
        }
    }
    if forall|identity: TableIdentity| #[trigger]
        left.contains(identity) <==> right.contains(identity) {
        assert forall|i: int| 0 <= i < left.len() implies right.contains(#[trigger] left[i]) by {
            assert(left.contains(left[i]));
        }
        assert forall|i: int| 0 <= i < right.len() implies left.contains(#[trigger] right[i]) by {
            assert(right.contains(right[i]));
        }
    }
}

/// Whether one table of an ensure-indices run is consistent: pin, effect and slot agree
/// on the alias, the version and the branch that the run starts from, the run makes
/// exactly one commit, a fork is on the branch of the run and starts at the pinned
/// version; and nothing is confirmed of an armed one, and everything, by the planned
/// transaction, of a confirmed one.
pub open spec fn index_table(
    branch: Option<Seq<char>>,
    phase: RecoveryEffectPhase,
    pin: SidecarTablePinModel,
    effect: RecoveryEnsureIndicesEffectModel,
    slot: RecoveryTableUpdateSlotModel,
) -> bool {
    &&& effect.table_key == pin.table_key
    &&& slot.table_key == pin.table_key
    &&& effect.planned_transaction.read_version == pin.expected_version
    &&& pin.post_commit_pin == pin.expected_version + 1
    &&& slot.expected_version == pin.expected_version
    &&& slot.table_branch == pin.table_branch
    &&& effect.source_fork_version is Some ==> {
        &&& off_main(pin)
        &&& pin.table_branch == branch
        &&& effect.source_fork_version->0 == pin.expected_version
    }
    &&& match phase {
        RecoveryEffectPhase::Armed => {
            &&& effect.confirmed_transaction is None
            &&& effect.confirmed_branch_identifier is None
            &&& slot.confirmed is None
            &&& pin.confirmed_version is None
        },
        RecoveryEffectPhase::EffectsConfirmed => {
            &&& effect.confirmed_transaction == Some(effect.planned_transaction)
            &&& effect.confirmed_branch_identifier is Some <==> effect.source_fork_version is Some
            &&& slot.confirmed is Some
            &&& slot.confirmed->0.table_version == pin.post_commit_pin
            &&& slot.confirmed->0.table_branch == pin.table_branch
            &&& pin.confirmed_version == Some(pin.post_commit_pin)
        },
    }
}

/// An ensure-indices run keeps the rules exactly where it carries its own payload alone;
/// the payload tells its schema and only updates tables; branch and actor are those of
/// the lineage, which merges nothing; the two fixed commits are there and differ; there
/// are pins, in order; a plan names pinned tables; every pinned table has one effect,
/// with an id of its own, and one slot; and every table is consistent.
pub proof fn lemma_rules_of_an_index_run(sidecar: RecoverySidecarModel)
    ensures
        ({
            let payload = sidecar.protocol_v8->0;
            let pins = sidecar.tables;
            let effects = payload.effects;
            let slots = payload.intended_delta.table_updates;
            let uuids = planned_uuids::<RecoveryEnsureIndicesEffect>(effects);
            ensure_indices_v8_defect(sidecar) is None <==> {
                &&& sidecar.writer_kind == SidecarKind::EnsureIndices
                &&& sidecar.protocol_v3 is None
                &&& sidecar.protocol_v4 is None
                &&& sidecar.protocol_v7 is None
                &&& sidecar.protocol_v8 is Some
                &&& sidecar.ensure_indices_rollback_v6 is None
                &&& sidecar.merge_source_commit_id is None
                &&& !sidecar.schema_apply_manifest_published
                &&& sidecar.schema_apply_target_schema_ir_hash is None
                &&& sidecar.additional_registrations.len() == 0
                &&& sidecar.tombstones.len() == 0
                &&& tells_schema(payload.authority)
                &&& only_updates(payload.intended_delta)
                &&& branch_in_lineage(sidecar.branch) == branch_in_lineage(payload.lineage.branch)
                &&& sidecar.actor_id == payload.lineage.actor_id
                &&& payload.lineage.merged_parent_commit_id is None
                &&& payload.lineage.graph_commit_id.len() > 0
                &&& payload.rollback_graph_commit_id.len() > 0
                &&& payload.rollback_graph_commit_id != payload.lineage.graph_commit_id
                &&& pins.len() > 0
                &&& pins_in_order(pins)
                &&& plan_in_order(
                    payload.rollback_audit_outcomes,
                    |alias: Seq<char>| pinned_as(pins, alias),
                )
                &&& identities::<RecoveryEnsureIndicesEffect>(effects).no_duplicates()
                &&& uuids.no_duplicates()
                &&& forall|i: int| 0 <= i < uuids.len() ==> (#[trigger] uuids[i]).len() > 0
                &&& identities::<RecoveryTableUpdateSlot>(slots).no_duplicates()
                &&& forall|identity: TableIdentity| #[trigger]
                    identities::<RecoveryEnsureIndicesEffect>(effects).contains(identity)
                        <==> identities::<SidecarTablePin>(pins).contains(identity)
                &&& forall|identity: TableIdentity| #[trigger]
                    identities::<RecoveryTableUpdateSlot>(slots).contains(identity)
                        <==> identities::<SidecarTablePin>(pins).contains(identity)
                &&& forall|i: int|
                    0 <= i < pins.len() ==> index_table(
                        branch_in_lineage(sidecar.branch),
                        payload.effect_phase,
                        #[trigger] pins[i],
                        find_by_identity::<RecoveryEnsureIndicesEffect>(
                            effects,
                            pins[i].identity,
                        )->0,
                        find_by_identity::<RecoveryTableUpdateSlot>(slots, pins[i].identity)->0,
                    )
            }
        }),
{
    let payload = sidecar.protocol_v8->0;
    let pins = sidecar.tables;
    let effects = payload.effects;
    let slots = payload.intended_delta.table_updates;
    lemma_pins_in_order(pins, true);
    lemma_plan_in_order(payload.rollback_audit_outcomes, pins);
    lemma_same(
        identities::<RecoveryEnsureIndicesEffect>(effects),
        identities::<SidecarTablePin>(pins),
    );
    lemma_same(
        identities::<RecoveryTableUpdateSlot>(slots),
        identities::<SidecarTablePin>(pins),
    );
    let findings = crate::shape::ensure_indices::table_findings(sidecar.branch, payload, pins);
    lemma_reported_is_the_first(findings);
    let branch = branch_in_lineage(sidecar.branch);
    assert forall|i: int| 0 <= i < pins.len() implies (index_table(
        branch,
        payload.effect_phase,
        #[trigger] pins[i],
        find_by_identity::<RecoveryEnsureIndicesEffect>(effects, pins[i].identity)->0,
        find_by_identity::<RecoveryTableUpdateSlot>(slots, pins[i].identity)->0,
    ) <==> findings[i] is None) by {}
    if first_defect(findings) is None {
        assert forall|i: int| 0 <= i < pins.len() implies index_table(
            branch,
            payload.effect_phase,
            #[trigger] pins[i],
            find_by_identity::<RecoveryEnsureIndicesEffect>(effects, pins[i].identity)->0,
            find_by_identity::<RecoveryTableUpdateSlot>(slots, pins[i].identity)->0,
        ) by {
            assert(findings[i] is None);
        }
    }
    if forall|i: int|
        0 <= i < pins.len() ==> index_table(
            branch,
            payload.effect_phase,
            #[trigger] pins[i],
            find_by_identity::<RecoveryEnsureIndicesEffect>(effects, pins[i].identity)->0,
            find_by_identity::<RecoveryTableUpdateSlot>(slots, pins[i].identity)->0,
        ) {
        assert forall|i: int| 0 <= i < findings.len() implies (#[trigger] findings[i]) is None by {
            let pin = pins[i];
        }
    }
}

/// Maintenance keeps the rules exactly where it carries pins, in order, and nothing
/// else.
pub proof fn lemma_rules_of_maintenance(sidecar: RecoverySidecarModel)
    ensures
        optimize_v9_defect(sidecar) is None <==> {
            &&& sidecar.writer_kind == SidecarKind::Optimize
            &&& sidecar.protocol_v3 is None
            &&& sidecar.protocol_v4 is None
            &&& sidecar.protocol_v7 is None
            &&& sidecar.protocol_v8 is None
            &&& sidecar.ensure_indices_rollback_v6 is None
            &&& sidecar.additional_registrations.len() == 0
            &&& sidecar.tombstones.len() == 0
            &&& sidecar.tables.len() > 0
            &&& pins_in_order(sidecar.tables)
        },
{
    lemma_pins_in_order(sidecar.tables, true);
}

/// An ensure-indices run that fixes its rollback alone keeps the rules exactly where it
/// carries that and its pins, under different aliases, and a plan that names them.
pub proof fn lemma_rules_of_a_loose_index_run(sidecar: RecoverySidecarModel)
    ensures
        ({
            let rollback = sidecar.ensure_indices_rollback_v6->0;
            let pins = sidecar.tables;
            ensure_indices_v6_defect(sidecar) is None <==> {
                &&& sidecar.writer_kind == SidecarKind::EnsureIndices
                &&& sidecar.protocol_v3 is None
                &&& sidecar.protocol_v4 is None
                &&& sidecar.protocol_v7 is None
                &&& sidecar.protocol_v8 is None
                &&& sidecar.merge_source_commit_id is None
                &&& sidecar.additional_registrations.len() == 0
                &&& sidecar.tombstones.len() == 0
                &&& sidecar.ensure_indices_rollback_v6 is Some
                &&& rollback.rollback_graph_commit_id.len() > 0
                &&& pins.len() > 0
                &&& forall|i: int, j: int|
                    0 <= i < j < pins.len() ==> (#[trigger] pins[i]).table_key != (
                    #[trigger] pins[j]).table_key
                &&& plan_in_order(
                    rollback.rollback_audit_outcomes,
                    |alias: Seq<char>| pinned_as(pins, alias),
                )
            }
        }),
{
    let pins = sidecar.tables;
    lemma_plan_in_order(sidecar.ensure_indices_rollback_v6->0.rollback_audit_outcomes, pins);
    let keys = aliases::<SidecarTablePin>(pins);
    if keys.no_duplicates() {
        assert forall|i: int, j: int| 0 <= i < j < pins.len() implies (
        #[trigger] pins[i]).table_key != (#[trigger] pins[j]).table_key by {
            assert(keys[i] != keys[j]);
        }
    }
}

/// Whether the transactions of a merged table chain: as many as recovery can look at,
/// one behind the other from the pinned version on, each with an id that no other has,
/// here or in the tables before.
pub open spec fn chained(
    pin: SidecarTablePinModel,
    chain: Seq<StagedTransactionIdentityModel>,
    seen: Seq<Seq<char>>,
) -> bool {
    &&& 0 < chain.len() <= 1024
    &&& pin.post_commit_pin == pin.expected_version + 1
    &&& forall|k: int|
        0 <= k < chain.len() ==> {
            &&& (#[trigger] chain[k]).read_version == pin.expected_version + k
            &&& chain[k].read_version < u64::MAX
            &&& chain[k].uuid.len() > 0
            &&& !seen.contains(chain[k].uuid)
        }
    &&& forall|k: int, m: int|
        0 <= k < m < chain.len() ==> (#[trigger] chain[k]).uuid != (#[trigger] chain[m]).uuid
}

/// The transactions of a merged table keep the rules exactly where they chain.
pub proof fn lemma_rules_of_a_chain(
    pin: SidecarTablePinModel,
    chain: Seq<StagedTransactionIdentityModel>,
    seen: Seq<Seq<char>>,
)
    ensures
        chain_defect(pin, chain, seen) is None <==> chained(pin, chain, seen),
{
    let findings = step_findings(pin, chain, seen);
    lemma_reported_is_the_first(findings);
    let uuids = chain_uuids(chain);
    assert forall|k: int| 0 <= k < chain.len() implies (#[trigger] findings[k] is None <==> {
        &&& chain[k].read_version == pin.expected_version + k
        &&& chain[k].uuid.len() > 0
        &&& !seen.contains(chain[k].uuid)
        &&& forall|m: int| 0 <= m < k ==> (#[trigger] chain[m]).uuid != chain[k].uuid
    }) by {
        let known = seen + uuids.subrange(0, k);
        if seen.contains(chain[k].uuid) {
            let m = choose|m: int| 0 <= m < seen.len() && seen[m] == chain[k].uuid;
            assert(known[m] == chain[k].uuid);
        }
        if exists|m: int| 0 <= m < k && (#[trigger] chain[m]).uuid == chain[k].uuid {
            let m = choose|m: int| 0 <= m < k && (#[trigger] chain[m]).uuid == chain[k].uuid;
            assert(known[seen.len() + m] == chain[k].uuid);
        }
        if known.contains(chain[k].uuid) {
            let m = choose|m: int| 0 <= m < known.len() && known[m] == chain[k].uuid;
            if m < seen.len() {
                assert(seen[m] == chain[k].uuid);
            } else {
                assert(chain[m - seen.len()].uuid == chain[k].uuid);
            }
        }
    }
    if chained(pin, chain, seen) {
        assert(chain[0].read_version == pin.expected_version);
        assert forall|k: int| 0 <= k < findings.len() implies (#[trigger] findings[k]) is None by {
            assert(chain[k].read_version == pin.expected_version + k);
        }
        assert(chain.last() == chain[chain.len() - 1]);
    }
    if chain_defect(pin, chain, seen) is None {
        assert forall|k: int| 0 <= k < chain.len() implies {
            &&& (#[trigger] chain[k]).read_version == pin.expected_version + k
            &&& chain[k].read_version < u64::MAX
            &&& chain[k].uuid.len() > 0
            &&& !seen.contains(chain[k].uuid)
        } by {
            assert(findings[k] is None);
            assert(findings[chain.len() - 1] is None);
            assert(chain[chain.len() - 1].read_version == pin.expected_version + chain.len() - 1);
        }
        assert forall|k: int, m: int| 0 <= k < m < chain.len() implies (#[trigger] chain[k]).uuid
            != (#[trigger] chain[m]).uuid by {
            assert(findings[m] is None);
        }
    }
}

/// Whether one table of a branch merge is consistent: pin, effect and slot agree on the
/// alias, the version and the branch that the merge starts from; a fork is on a branch
/// of its own, and one with data starts at the pinned version; data transactions chain;
/// and nothing is confirmed of an armed one, and everything of a confirmed one, not
/// before the end of its chain, with the branch where it was forked.
pub open spec fn merge_table(
    phase: RecoveryEffectPhase,
    pin: SidecarTablePinModel,
    effect: RecoveryBranchMergeEffectModel,
    slot: RecoveryTableUpdateSlotModel,
    seen: Seq<Seq<char>>,
) -> bool {
    let data = effect.kind is MultiCommitHead;
    let chain = planned_chain(effect);
    let output = slot.confirmed->0.table_version;
    &&& effect.table_key == pin.table_key
    &&& slot.table_key == pin.table_key
    &&& slot.expected_version == pin.expected_version
    &&& slot.table_branch == pin.table_branch
    &&& forked_at(effect) is Some ==> off_main(pin)
    &&& data && forked_at(effect) is Some ==> forked_at(effect)->0 == pin.expected_version
    &&& data ==> chained(pin, chain, seen)
    &&& match phase {
        RecoveryEffectPhase::Armed => {
            &&& confirmed_head(effect) is None
            &&& confirmed_ref(effect) is None
            &&& pin.confirmed_version is None
        },
        RecoveryEffectPhase::EffectsConfirmed => {
            &&& pin.confirmed_version == Some(output)
            &&& confirmed_ref(effect) is Some <==> forked_at(effect) is Some
            &&& data ==> confirmed_head(effect) == Some(output)
            &&& data ==> output > chain.last().read_version
            &&& !data ==> forked_at(effect) == Some(output)
        },
    }
}

/// A table of a branch merge keeps the rules exactly where it is consistent.
pub proof fn lemma_rules_of_a_merged_table(
    phase: RecoveryEffectPhase,
    pin: SidecarTablePinModel,
    effect: RecoveryBranchMergeEffectModel,
    slot: RecoveryTableUpdateSlotModel,
    seen: Seq<Seq<char>>,
)
    ensures
        crate::shape::branch_merge::table_defect(phase, pin, effect, slot, seen) is None
            <==> merge_table(phase, pin, effect, slot, seen),
{
    lemma_rules_of_a_chain(pin, planned_chain(effect), seen);
}

/// A branch merge keeps the rules exactly where it carries its own payload alone; the
/// payload tells its schema and only updates tables; branch and actor are those of the
/// lineage, which names its source; the two fixed commits differ; there are pins, in
/// order; every pinned table has one effect and one slot; slots are real, under
/// different aliases, confirmed exactly where the merge is, on their branch; a plan
/// names pinned tables; and every table is consistent.
pub proof fn lemma_rules_of_a_merge(sidecar: RecoverySidecarModel)
    ensures
        ({
            let payload = sidecar.protocol_v4->0;
            let pins = sidecar.tables;
            let effects = payload.effects;
            let slots = payload.intended_delta.table_updates;
            let confirmed = payload.effect_phase == RecoveryEffectPhase::EffectsConfirmed;
            branch_merge_v4_defect(sidecar) is None <==> {
                &&& sidecar.writer_kind == SidecarKind::BranchMerge
                &&& sidecar.protocol_v3 is None
                &&& sidecar.protocol_v4 is Some
                &&& sidecar.protocol_v7 is None
                &&& sidecar.protocol_v8 is None
                &&& sidecar.ensure_indices_rollback_v6 is None
                &&& sidecar.merge_source_commit_id is None
                &&& sidecar.additional_registrations.len() == 0
                &&& sidecar.tombstones.len() == 0
                &&& tells_schema(payload.authority)
                &&& only_updates(payload.intended_delta)
                &&& branch_in_lineage(sidecar.branch) == branch_in_lineage(payload.lineage.branch)
                &&& sidecar.actor_id == payload.lineage.actor_id
                &&& payload.lineage.merged_parent_commit_id is Some
                &&& payload.rollback_graph_commit_id != payload.lineage.graph_commit_id
                &&& pins.len() > 0
                &&& pins_in_order(pins)
                &&& plan_in_order(
                    payload.rollback_audit_outcomes,
                    |alias: Seq<char>| pinned_as(pins, alias),
                )
                &&& identities::<RecoveryBranchMergeEffect>(effects).no_duplicates()
                &&& identities::<RecoveryTableUpdateSlot>(slots).no_duplicates()
                &&& aliases::<RecoveryTableUpdateSlot>(slots).no_duplicates()
                &&& forall|identity: TableIdentity| #[trigger]
                    identities::<RecoveryBranchMergeEffect>(effects).contains(identity)
                        <==> identities::<SidecarTablePin>(pins).contains(identity)
                &&& within(
                    identities::<RecoveryBranchMergeEffect>(effects),
                    identities::<RecoveryTableUpdateSlot>(slots),
                )
                &&& forall|i: int|
                    0 <= i < slots.len() ==> {
                        &&& genuine((#[trigger] slots[i]).identity)
                        &&& slots[i].confirmed is Some <==> confirmed
                        &&& confirmed ==> slots[i].confirmed->0.table_branch
                            == slots[i].table_branch
                    }
                &&& forall|i: int|
                    0 <= i < pins.len() ==> merge_table(
                        payload.effect_phase,
                        #[trigger] pins[i],
                        find_by_identity::<RecoveryBranchMergeEffect>(
                            effects,
                            pins[i].identity,
                        )->0,
                        find_by_identity::<RecoveryTableUpdateSlot>(slots, pins[i].identity)->0,
                        uuids_before(payload, pins, i),
                    )
            }
        }),
{
    let payload = sidecar.protocol_v4->0;
    let pins = sidecar.tables;
    let effects = payload.effects;
    let slots = payload.intended_delta.table_updates;
    let confirmed = payload.effect_phase == RecoveryEffectPhase::EffectsConfirmed;
    lemma_pins_in_order(pins, true);
    lemma_plan_in_order(payload.rollback_audit_outcomes, pins);
    lemma_same(
        identities::<RecoveryBranchMergeEffect>(effects),
        identities::<SidecarTablePin>(pins),
    );
    let outputs = crate::shape::branch_merge::slot_findings(payload.effect_phase, slots);
    lemma_reported_is_the_first(outputs);
    let findings = crate::shape::branch_merge::table_findings(payload, pins);
    lemma_reported_is_the_first(findings);
    assert forall|i: int| 0 <= i < pins.len() implies (merge_table(
        payload.effect_phase,
        #[trigger] pins[i],
        find_by_identity::<RecoveryBranchMergeEffect>(effects, pins[i].identity)->0,
        find_by_identity::<RecoveryTableUpdateSlot>(slots, pins[i].identity)->0,
        uuids_before(payload, pins, i),
    ) <==> findings[i] is None) by {
        lemma_rules_of_a_merged_table(
            payload.effect_phase,
            pins[i],
            find_by_identity::<RecoveryBranchMergeEffect>(effects, pins[i].identity)->0,
            find_by_identity::<RecoveryTableUpdateSlot>(slots, pins[i].identity)->0,
            uuids_before(payload, pins, i),
        );
    }
    if first_defect(findings) is None {
        assert forall|i: int| 0 <= i < pins.len() implies merge_table(
            payload.effect_phase,
            #[trigger] pins[i],
            find_by_identity::<RecoveryBranchMergeEffect>(effects, pins[i].identity)->0,
            find_by_identity::<RecoveryTableUpdateSlot>(slots, pins[i].identity)->0,
            uuids_before(payload, pins, i),
        ) by {
            assert(findings[i] is None);
        }
    }
    if forall|i: int|
        0 <= i < pins.len() ==> merge_table(
            payload.effect_phase,
            #[trigger] pins[i],
            find_by_identity::<RecoveryBranchMergeEffect>(effects, pins[i].identity)->0,
            find_by_identity::<RecoveryTableUpdateSlot>(slots, pins[i].identity)->0,
            uuids_before(payload, pins, i),
        ) {
        assert forall|i: int| 0 <= i < findings.len() implies (#[trigger] findings[i]) is None by {
            let pin = pins[i];
        }
    }
    assert forall|i: int| 0 <= i < slots.len() implies (#[trigger] outputs[i] is None <==> {
        &&& genuine(slots[i].identity)
        &&& slots[i].confirmed is Some <==> confirmed
        &&& confirmed ==> slots[i].confirmed->0.table_branch == slots[i].table_branch
    }) by {}
    if first_defect(outputs) is None {
        assert forall|i: int| 0 <= i < slots.len() implies {
            &&& genuine((#[trigger] slots[i]).identity)
            &&& slots[i].confirmed is Some <==> confirmed
            &&& confirmed ==> slots[i].confirmed->0.table_branch == slots[i].table_branch
        } by {
            assert(outputs[i] is None);
        }
    }
}

/// The ids that a merge has used before a table are those of the transactions of the
/// tables before it.
pub proof fn lemma_ids_used_before(
    payload: RecoveryProtocolV4Model,
    pins: Seq<SidecarTablePinModel>,
    i: int,
    uuid: Seq<char>,
)
    requires
        0 <= i <= pins.len(),
    ensures
        uuids_before(payload, pins, i).contains(uuid) <==> exists|j: int, k: int|
            {
                let chain = planned_chain(
                    find_by_identity::<RecoveryBranchMergeEffect>(
                        payload.effects,
                        pins[j].identity,
                    )->0,
                );
                &&& 0 <= j < i
                &&& 0 <= k < chain.len()
                &&& #[trigger] planned_at(payload, pins[j], k) == uuid
            },
    decreases i,
{
    if i > 0 {
        lemma_ids_used_before(payload, pins, i - 1, uuid);
        let before = uuids_before(payload, pins, i - 1);
        let effect = find_by_identity::<RecoveryBranchMergeEffect>(
            payload.effects,
            pins[i - 1].identity,
        )->0;
        let own = chain_uuids(planned_chain(effect));
        let all = uuids_before(payload, pins, i);
        assert(all == before + own);
        if all.contains(uuid) {
            let m = choose|m: int| 0 <= m < all.len() && all[m] == uuid;
            if m < before.len() {
                assert(before[m] == uuid);
                assert(before.contains(uuid));
                let (j, k) = choose|j: int, k: int|
                    {
                        let chain = planned_chain(
                            find_by_identity::<RecoveryBranchMergeEffect>(
                                payload.effects,
                                pins[j].identity,
                            )->0,
                        );
                        &&& 0 <= j < i - 1
                        &&& 0 <= k < chain.len()
                        &&& #[trigger] planned_at(payload, pins[j], k) == uuid
                    };
                assert(planned_at(payload, pins[j], k) == uuid);
            } else {
                let k = m - before.len();
                assert(own[k] == uuid);
                assert(planned_at(payload, pins[i - 1], k) == uuid);
            }
        }
        if exists|j: int, k: int|
            {
                let chain = planned_chain(
                    find_by_identity::<RecoveryBranchMergeEffect>(
                        payload.effects,
                        pins[j].identity,
                    )->0,
                );
                &&& 0 <= j < i
                &&& 0 <= k < chain.len()
                &&& #[trigger] planned_at(payload, pins[j], k) == uuid
            } {
            let (j, k) = choose|j: int, k: int|
                {
                    let chain = planned_chain(
                        find_by_identity::<RecoveryBranchMergeEffect>(
                            payload.effects,
                            pins[j].identity,
                        )->0,
                    );
                    &&& 0 <= j < i
                    &&& 0 <= k < chain.len()
                    &&& #[trigger] planned_at(payload, pins[j], k) == uuid
                };
            if j < i - 1 {
                assert(before.contains(uuid));
                let m = choose|m: int| 0 <= m < before.len() && before[m] == uuid;
                assert(all[m] == uuid);
            } else {
                assert(all[before.len() + k] == uuid);
            }
        }
    }
}

/// The id of one planned transaction of a merged table.
pub open spec fn planned_at(
    payload: RecoveryProtocolV4Model,
    pin: SidecarTablePinModel,
    k: int,
) -> Seq<char> {
    planned_chain(
        find_by_identity::<RecoveryBranchMergeEffect>(payload.effects, pin.identity)->0,
    )[k].uuid
}

/// Whether one table of a schema apply is consistent: it is on main; pin, effect and slot
/// agree on the alias and the version that the apply starts from; the apply makes one
/// commit; it creates exactly the tables without a version; and nothing is confirmed of
/// an armed one, and everything, by the planned transaction, of a confirmed one.
pub open spec fn schema_table(
    phase: RecoveryEffectPhase,
    pin: SidecarTablePinModel,
    effect: RecoverySchemaApplyEffectModel,
    slot: RecoveryTableUpdateSlotModel,
) -> bool {
    &&& pin.table_branch is None
    &&& slot.table_branch is None
    &&& effect.table_key == pin.table_key
    &&& slot.table_key == pin.table_key
    &&& rewrite_of(effect).read_version == pin.expected_version
    &&& slot.expected_version == pin.expected_version
    &&& pin.expected_version < u64::MAX ==> pin.post_commit_pin == pin.expected_version + 1
    &&& pin.expected_version == u64::MAX ==> pin.post_commit_pin == u64::MAX
    &&& effect.kind is FirstTouchDataset <==> pin.expected_version == 0
    &&& match phase {
        RecoveryEffectPhase::Armed => {
            &&& rewritten_by(effect) is None
            &&& slot.confirmed is None
            &&& pin.confirmed_version is None
        },
        RecoveryEffectPhase::EffectsConfirmed => {
            &&& rewritten_by(effect) == Some(rewrite_of(effect))
            &&& slot.confirmed is Some
            &&& slot.confirmed->0.table_version == pin.post_commit_pin
            &&& slot.confirmed->0.table_branch is None
            &&& pin.confirmed_version == Some(pin.post_commit_pin)
        },
    }
}

/// A table of a schema apply keeps the rules exactly where it is consistent.
pub proof fn lemma_rules_of_a_rewritten_table(
    phase: RecoveryEffectPhase,
    pin: SidecarTablePinModel,
    effect: RecoverySchemaApplyEffectModel,
    slot: RecoveryTableUpdateSlotModel,
)
    ensures
        crate::shape::schema_apply::table_defect(phase, pin, effect, slot) is None
            <==> schema_table(phase, pin, effect, slot),
{
}

/// Whether a registration is of a genuine table, at the place that goes with its alias,
/// on main, under the alias of its effect.
pub open spec fn registration_in_order(
    effects: Seq<RecoverySchemaApplyEffectModel>,
    registration: SidecarTableRegistrationModel,
) -> bool {
    let effect = find_by_identity::<RecoverySchemaApplyEffect>(effects, registration.identity)->0;
    &&& genuine(registration.identity)
    &&& path_of(registration.table_key, registration.identity) == Some(registration.table_path)
    &&& effect.table_key == registration.table_key
}

/// Whether a rename is of a genuine table that has a version, to another alias at the same
/// place, and agrees with the slot of the table where it has one.
pub open spec fn rename_in_order(
    slots: Seq<RecoveryTableUpdateSlotModel>,
    rename: SidecarTableRenameModel,
) -> bool {
    let slot = find_by_identity::<RecoveryTableUpdateSlot>(slots, rename.identity);
    &&& genuine(rename.identity)
    &&& path_of(rename.expected_table_key, rename.identity) == Some(rename.table_path)
    &&& path_of(rename.table_key, rename.identity) == Some(rename.table_path)
    &&& rename.expected_version > 0
    &&& rename.expected_table_key != rename.table_key
    &&& slot is Some ==> slot->0.table_key == rename.table_key && slot->0.expected_version
        == rename.expected_version
}

/// A registration and a rename of a schema apply keep the rules exactly where they are in
/// order.
pub proof fn lemma_rules_of_aliases(
    uri: Seq<char>,
    version: u32,
    effects: Seq<RecoverySchemaApplyEffectModel>,
    slots: Seq<RecoveryTableUpdateSlotModel>,
    registration: SidecarTableRegistrationModel,
    rename: SidecarTableRenameModel,
)
    ensures
        registration_fault(uri, version, effects, registration) is None <==> registration_in_order(
            effects,
            registration,
        ),
        rename_fault(uri, version, slots, rename) is None <==> rename_in_order(slots, rename),
{
}

/// Whether a delta gives no alias to two tables.
pub open spec fn aliases_given_once(delta: RecoveryManifestDeltaModel) -> bool {
    let given = delta.registrations;
    let renamed = delta.renames;
    &&& forall|i: int, j: int|
        0 <= i < j < given.len() ==> (#[trigger] given[i]).table_key != (
        #[trigger] given[j]).table_key
    &&& forall|i: int, j: int|
        0 <= i < j < renamed.len() ==> (#[trigger] renamed[i]).table_key != (
        #[trigger] renamed[j]).table_key
    &&& forall|i: int, j: int|
        0 <= i < given.len() && 0 <= j < renamed.len() ==> (#[trigger] given[i]).table_key != (
        #[trigger] renamed[j]).table_key
}

proof fn lemma_aliases_given_once(delta: RecoveryManifestDeltaModel)
    ensures
        first_defect(binding_findings(live_bindings(delta))) is None <==> aliases_given_once(delta),
{
    let bindings = live_bindings(delta);
    let findings = binding_findings(bindings);
    let given = delta.registrations;
    let renamed = delta.renames;
    let a = given.len() as int;
    lemma_reported_is_the_first(findings);
    if first_defect(findings) is None {
        assert forall|i: int, j: int| 0 <= i < j < bindings.len() implies (
        #[trigger] bindings[i]).1 != (#[trigger] bindings[j]).1 by {
            assert(findings[j] is None);
        }
        assert forall|i: int, j: int| 0 <= i < j < given.len() implies (
        #[trigger] given[i]).table_key != (#[trigger] given[j]).table_key by {
            assert(bindings[i].1 != bindings[j].1);
        }
        assert forall|i: int, j: int| 0 <= i < j < renamed.len() implies (
        #[trigger] renamed[i]).table_key != (#[trigger] renamed[j]).table_key by {
            assert(bindings[a + i].1 != bindings[a + j].1);
        }
        assert forall|i: int, j: int|
            0 <= i < given.len() && 0 <= j < renamed.len() implies (#[trigger] given[i]).table_key
            != (#[trigger] renamed[j]).table_key by {
            assert(bindings[i].1 != bindings[a + j].1);
        }
    }
    if aliases_given_once(delta) {
        assert forall|j: int| 0 <= j < findings.len() implies (#[trigger] findings[j]) is None by {
            if crate::shape::schema_apply::given_before(bindings, j, bindings[j].1) {
                let i = choose|i: int| 0 <= i < j && (#[trigger] bindings[i]).1 == bindings[j].1;
                if j < a {
                    assert(given[i].table_key == given[j].table_key);
                } else if i < a {
                    assert(given[i].table_key == renamed[j - a].table_key);
                } else {
                    assert(renamed[i - a].table_key == renamed[j - a].table_key);
                }
            }
        }
    }
}

/// Whether a table has, after a rollback, an alias again.
pub open spec fn restored_as(
    renames: Seq<SidecarTableRenameModel>,
    pins: Seq<SidecarTablePinModel>,
    alias: Seq<char>,
) -> bool {
    exists|i: int| 0 <= i < pins.len() && alias_before(renames, #[trigger] pins[i]) == alias
}

/// Whether the parts of a delta are of different tables, and it registers exactly the
/// tables that the apply creates.
pub open spec fn delta_in_order(
    delta: RecoveryManifestDeltaModel,
    effects: Seq<RecoverySchemaApplyEffectModel>,
) -> bool {
    let given = delta.registrations;
    let renamed = delta.renames;
    let removed = delta.tombstones;
    &&& forall|i: int, j: int|
        0 <= i < j < given.len() ==> (#[trigger] given[i]).identity != (
        #[trigger] given[j]).identity
    &&& forall|i: int, j: int|
        0 <= i < j < renamed.len() ==> (#[trigger] renamed[i]).identity != (
        #[trigger] renamed[j]).identity
    &&& forall|i: int, j: int|
        0 <= i < j < removed.len() ==> (#[trigger] removed[i]).identity != (
        #[trigger] removed[j]).identity
    &&& forall|i: int, j: int|
        0 <= i < given.len() && 0 <= j < renamed.len() ==> (#[trigger] given[i]).identity != (
        #[trigger] renamed[j]).identity
    &&& forall|i: int, j: int|
        0 <= i < given.len() && 0 <= j < removed.len() ==> (#[trigger] given[i]).identity != (
        #[trigger] removed[j]).identity
    &&& forall|i: int, j: int|
        0 <= i < removed.len() && 0 <= j < renamed.len() ==> (#[trigger] removed[i]).identity != (
        #[trigger] renamed[j]).identity
    &&& forall|i: int|
        0 <= i < given.len() ==> exists|k: int|
            0 <= k < effects.len() && (#[trigger] effects[k]).identity == (
            #[trigger] given[i]).identity && effects[k].kind is FirstTouchDataset
    &&& forall|k: int|
        0 <= k < effects.len() && (#[trigger] effects[k]).kind is FirstTouchDataset ==> exists|
            i: int,
        |
            0 <= i < given.len() && (#[trigger] given[i]).identity == effects[k].identity
}

proof fn lemma_delta_in_order(payload: RecoveryProtocolV7Model)
    ensures
        crate::shape::schema_apply::table_set_consistent(payload) <==> delta_in_order(
            payload.intended_delta,
            payload.effects,
        ),
{
    let delta = payload.intended_delta;
    let given = delta.registrations;
    let renamed = delta.renames;
    let removed = delta.tombstones;
    let effects = payload.effects;
    let given_ids = identities::<SidecarTableRegistration>(given);
    let renamed_ids = identities::<SidecarTableRename>(renamed);
    let removed_ids = identities::<SidecarTombstone>(removed);
    if crate::shape::schema_apply::table_set_consistent(payload) {
        assert forall|i: int, j: int| 0 <= i < j < given.len() implies (#[trigger] given[i]).identity
            != (#[trigger] given[j]).identity by {
            assert(given_ids[i] != given_ids[j]);
        }
        assert forall|i: int, j: int| 0 <= i < j < renamed.len() implies (
        #[trigger] renamed[i]).identity != (#[trigger] renamed[j]).identity by {
            assert(renamed_ids[i] != renamed_ids[j]);
        }
        assert forall|i: int, j: int| 0 <= i < j < removed.len() implies (
        #[trigger] removed[i]).identity != (#[trigger] removed[j]).identity by {
            assert(removed_ids[i] != removed_ids[j]);
        }
        assert forall|i: int, j: int|
            0 <= i < given.len() && 0 <= j < renamed.len() implies (#[trigger] given[i]).identity
            != (#[trigger] renamed[j]).identity by {
            assert(!renamed_ids.contains(given_ids[i]));
            assert(renamed_ids[j] == renamed[j].identity);
        }
        assert forall|i: int, j: int|
            0 <= i < given.len() && 0 <= j < removed.len() implies (#[trigger] given[i]).identity
            != (#[trigger] removed[j]).identity by {
            assert(!removed_ids.contains(given_ids[i]));
            assert(removed_ids[j] == removed[j].identity);
        }
        assert forall|i: int, j: int|
            0 <= i < removed.len() && 0 <= j < renamed.len() implies (
        #[trigger] removed[i]).identity != (#[trigger] renamed[j]).identity by {
            assert(!renamed_ids.contains(removed_ids[i]));
            assert(renamed_ids[j] == renamed[j].identity);
        }
        assert forall|i: int| 0 <= i < given.len() implies exists|k: int|
            0 <= k < effects.len() && (#[trigger] effects[k]).identity == (
            #[trigger] given[i]).identity && effects[k].kind is FirstTouchDataset by {
            assert(crate::shape::schema_apply::first_touched(effects, given_ids[i]));
        }
        assert forall|k: int|
            0 <= k < effects.len() && (#[trigger] effects[k]).kind
                is FirstTouchDataset implies exists|i: int|
            0 <= i < given.len() && (#[trigger] given[i]).identity == effects[k].identity by {
            assert(given_ids.contains(effects[k].identity));
            let i = choose|i: int| 0 <= i < given_ids.len() && given_ids[i] == effects[k].identity;
            assert(given[i].identity == effects[k].identity);
        }
    }
    if delta_in_order(delta, effects) {
        assert forall|i: int| 0 <= i < given_ids.len() implies !renamed_ids.contains(
            #[trigger] given_ids[i],
        ) && !removed_ids.contains(given_ids[i]) && crate::shape::schema_apply::first_touched(
            effects,
            given_ids[i],
        ) by {
            let own = given[i];
            if renamed_ids.contains(given_ids[i]) {
                let j = choose|j: int| 0 <= j < renamed_ids.len() && renamed_ids[j] == given_ids[i];
                assert(given[i].identity == renamed[j].identity);
            }
            if removed_ids.contains(given_ids[i]) {
                let j = choose|j: int| 0 <= j < removed_ids.len() && removed_ids[j] == given_ids[i];
                assert(given[i].identity == removed[j].identity);
            }
        }
        assert forall|i: int| 0 <= i < removed_ids.len() implies !renamed_ids.contains(
            #[trigger] removed_ids[i],
        ) by {
            if renamed_ids.contains(removed_ids[i]) {
                let j = choose|j: int|
                    0 <= j < renamed_ids.len() && renamed_ids[j] == removed_ids[i];
                assert(removed[i].identity == renamed[j].identity);
            }
        }
        assert forall|k: int|
            0 <= k < effects.len() && (#[trigger] effects[k]).kind
                is FirstTouchDataset implies given_ids.contains(effects[k].identity) by {
            let i = choose|i: int|
                0 <= i < given.len() && (#[trigger] given[i]).identity == effects[k].identity;
            assert(given_ids[i] == effects[k].identity);
        }
        assert(given_ids.no_duplicates());
        assert(renamed_ids.no_duplicates());
        assert(removed_ids.no_duplicates());
    }
}

/// A schema apply keeps the rules exactly where it is on main and carries its own payload
/// alone; the payload tells its schema and its target; the actor is that of the lineage,
/// which is on main and merges nothing; the two fixed commits are there and differ; the
/// pins are in order; every pinned table has one effect, with an id of its own, and one
/// slot; the parts of the delta are of different tables, in order, on main, give no
/// alias twice, and register exactly the tables that it creates; a plan names the aliases
/// that the pinned tables have again; and every table is consistent.
pub proof fn lemma_rules_of_a_schema_apply(uri: Seq<char>, sidecar: RecoverySidecarModel)
    ensures
        ({
            let payload = sidecar.protocol_v7->0;
            let delta = payload.intended_delta;
            let pins = sidecar.tables;
            let effects = payload.effects;
            let slots = delta.table_updates;
            let uuids = planned_uuids::<RecoverySchemaApplyEffect>(effects);
            schema_apply_v7_fault(uri, sidecar) is None <==> {
                &&& sidecar.writer_kind == SidecarKind::SchemaApply
                &&& sidecar.branch is None
                &&& sidecar.protocol_v3 is None
                &&& sidecar.protocol_v4 is None
                &&& sidecar.protocol_v7 is Some
                &&& sidecar.protocol_v8 is None
                &&& sidecar.ensure_indices_rollback_v6 is None
                &&& sidecar.merge_source_commit_id is None
                &&& !sidecar.schema_apply_manifest_published
                &&& sidecar.schema_apply_target_schema_ir_hash is None
                &&& sidecar.additional_registrations.len() == 0
                &&& sidecar.tombstones.len() == 0
                &&& tells_schema(payload.authority)
                &&& payload.target_schema_ir_hash.len() > 0
                &&& sidecar.actor_id == payload.lineage.actor_id
                &&& payload.lineage.branch is None
                &&& payload.lineage.merged_parent_commit_id is None
                &&& payload.lineage.graph_commit_id.len() > 0
                &&& payload.rollback_graph_commit_id.len() > 0
                &&& payload.rollback_graph_commit_id != payload.lineage.graph_commit_id
                &&& pins_in_order(pins)
                &&& identities::<RecoverySchemaApplyEffect>(effects).no_duplicates()
                &&& uuids.no_duplicates()
                &&& forall|i: int| 0 <= i < uuids.len() ==> (#[trigger] uuids[i]).len() > 0
                &&& identities::<RecoveryTableUpdateSlot>(slots).no_duplicates()
                &&& forall|identity: TableIdentity| #[trigger]
                    identities::<RecoverySchemaApplyEffect>(effects).contains(identity)
                        <==> identities::<SidecarTablePin>(pins).contains(identity)
                &&& forall|identity: TableIdentity| #[trigger]
                    identities::<RecoveryTableUpdateSlot>(slots).contains(identity)
                        <==> identities::<SidecarTablePin>(pins).contains(identity)
                &&& delta_in_order(delta, effects)
                &&& aliases_given_once(delta)
                &&& forall|i: int|
                    0 <= i < delta.registrations.len() ==> registration_in_order(
                        effects,
                        #[trigger] delta.registrations[i],
                    ) && delta.registrations[i].table_branch is None
                &&& forall|i: int|
                    0 <= i < delta.renames.len() ==> rename_in_order(
                        slots,
                        #[trigger] delta.renames[i],
                    )
                &&& forall|i: int|
                    0 <= i < delta.tombstones.len() ==> genuine(
                        (#[trigger] delta.tombstones[i]).identity,
                    )
                &&& plan_in_order(
                    payload.rollback_audit_outcomes,
                    |alias: Seq<char>| restored_as(delta.renames, pins, alias),
                )
                &&& forall|i: int|
                    0 <= i < pins.len() ==> schema_table(
                        payload.effect_phase,
                        #[trigger] pins[i],
                        find_by_identity::<RecoverySchemaApplyEffect>(
                            effects,
                            pins[i].identity,
                        )->0,
                        find_by_identity::<RecoveryTableUpdateSlot>(slots, pins[i].identity)->0,
                    )
            }
        }),
{
    let payload = sidecar.protocol_v7->0;
    let delta = payload.intended_delta;
    let pins = sidecar.tables;
    let effects = payload.effects;
    let slots = delta.table_updates;
    let version = sidecar.schema_version;
    lemma_pins_in_order(pins, false);
    lemma_same(
        identities::<RecoverySchemaApplyEffect>(effects),
        identities::<SidecarTablePin>(pins),
    );
    lemma_same(
        identities::<RecoveryTableUpdateSlot>(slots),
        identities::<SidecarTablePin>(pins),
    );
    lemma_delta_in_order(payload);
    lemma_aliases_given_once(delta);
    let given = registration_findings(uri, version, payload);
    let renamed = rename_findings(uri, version, payload);
    lemma_reported_is_the_first(given);
    lemma_reported_is_the_first(renamed);
    assert((first_defect(given) is None) <==> (forall|i: int|
        0 <= i < delta.registrations.len() ==> registration_in_order(
            effects,
            #[trigger] delta.registrations[i],
        ))) by {
        assert forall|i: int| 0 <= i < delta.registrations.len() implies (registration_in_order(
            effects,
            #[trigger] delta.registrations[i],
        ) <==> given[i] is None) by {}
        if first_defect(given) is None {
            assert forall|i: int| 0 <= i < delta.registrations.len() implies registration_in_order(
                effects,
                #[trigger] delta.registrations[i],
            ) by {
                assert(given[i] is None);
            }
        } else {
            let i = choose|i: int|
                {
                    &&& 0 <= i < given.len()
                    &&& #[trigger] given[i] == first_defect(given)
                    &&& forall|j: int| 0 <= j < i ==> (#[trigger] given[j]) is None
                };
            let own = delta.registrations[i];
            assert(!registration_in_order(effects, own));
        }
    }
    assert((first_defect(renamed) is None) <==> (forall|i: int|
        0 <= i < delta.renames.len() ==> rename_in_order(slots, #[trigger] delta.renames[i]))) by {
        assert forall|i: int| 0 <= i < delta.renames.len() implies (rename_in_order(
            slots,
            #[trigger] delta.renames[i],
        ) <==> renamed[i] is None) by {}
        if first_defect(renamed) is None {
            assert forall|i: int| 0 <= i < delta.renames.len() implies rename_in_order(
                slots,
                #[trigger] delta.renames[i],
            ) by {
                assert(renamed[i] is None);
            }
        } else {
            let i = choose|i: int|
                {
                    &&& 0 <= i < renamed.len()
                    &&& #[trigger] renamed[i] == first_defect(renamed)
                    &&& forall|j: int| 0 <= j < i ==> (#[trigger] renamed[j]) is None
                };
            let own = delta.renames[i];
            assert(!rename_in_order(slots, own));
        }
    }
    let names = |alias: Seq<char>| restored_as(delta.renames, pins, alias);
    assert(crate::shape::schema_apply::restored_plan_sound(
        payload.rollback_audit_outcomes,
        crate::shape::schema_apply::restored_aliases(delta.renames, pins),
    ) <==> plan_in_order(payload.rollback_audit_outcomes, names)) by {
        let keys = crate::shape::schema_apply::restored_aliases(delta.renames, pins);
        assert forall|alias: Seq<char>| restored_as(delta.renames, pins, alias)
            <==> #[trigger] keys.contains(alias) by {
            if restored_as(delta.renames, pins, alias) {
                let i = choose|i: int|
                    0 <= i < pins.len() && alias_before(delta.renames, #[trigger] pins[i]) == alias;
                assert(keys[i] == alias);
            }
            if keys.contains(alias) {
                let i = choose|i: int| 0 <= i < keys.len() && keys[i] == alias;
                assert(alias_before(delta.renames, pins[i]) == alias);
            }
        }
        if payload.rollback_audit_outcomes is Some {
            lemma_names(payload.rollback_audit_outcomes->0, keys);
        }
    }
    let findings = crate::shape::schema_apply::table_findings(payload, pins);
    lemma_reported_is_the_first(findings);
    assert((first_defect(findings) is None) <==> (forall|i: int|
        0 <= i < pins.len() ==> schema_table(
            payload.effect_phase,
            #[trigger] pins[i],
            find_by_identity::<RecoverySchemaApplyEffect>(effects, pins[i].identity)->0,
            find_by_identity::<RecoveryTableUpdateSlot>(slots, pins[i].identity)->0,
        ))) by {
        assert forall|i: int| 0 <= i < pins.len() implies (schema_table(
            payload.effect_phase,
            #[trigger] pins[i],
            find_by_identity::<RecoverySchemaApplyEffect>(effects, pins[i].identity)->0,
            find_by_identity::<RecoveryTableUpdateSlot>(slots, pins[i].identity)->0,
        ) <==> findings[i] is None) by {}
        if first_defect(findings) is None {
            assert forall|i: int| 0 <= i < pins.len() implies schema_table(
                payload.effect_phase,
                #[trigger] pins[i],
                find_by_identity::<RecoverySchemaApplyEffect>(effects, pins[i].identity)->0,
                find_by_identity::<RecoveryTableUpdateSlot>(slots, pins[i].identity)->0,
            ) by {
                assert(findings[i] is None);
            }
        } else {
            let i = choose|i: int|
                {
                    &&& 0 <= i < findings.len()
                    &&& #[trigger] findings[i] == first_defect(findings)
                    &&& forall|j: int| 0 <= j < i ==> (#[trigger] findings[j]) is None
                };
            let pin = pins[i];
            assert(!schema_table(
                payload.effect_phase,
                pin,
                find_by_identity::<RecoverySchemaApplyEffect>(effects, pins[i].identity)->0,
                find_by_identity::<RecoveryTableUpdateSlot>(slots, pins[i].identity)->0,
            ));
        }
    }
}

/// The rules that a sidecar is held to follow from its generation, and in the newest one
/// from its writer. In every generation the fields of a loose schema apply and of a loose
/// ensure-indices run stand only in theirs, and no exact payload in one that had none.
pub proof fn lemma_rules_by_generation(uri: Seq<char>, sidecar: RecoverySidecarModel)
    ensures
        ({
            let generation = sidecar.schema_version;
            let kind = sidecar.writer_kind;
            let exact = sidecar.protocol_v3 is Some || sidecar.protocol_v4 is Some
                || sidecar.protocol_v7 is Some || sidecar.protocol_v8 is Some;
            let told = sidecar.schema_apply_manifest_published
                || sidecar.schema_apply_target_schema_ir_hash is Some;
            let base = {
                &&& told ==> generation == 5 && kind == SidecarKind::SchemaApply
                &&& told ==> sidecar.schema_apply_target_schema_ir_hash is Some
                &&& sidecar.ensure_indices_rollback_v6 is Some ==> generation == 6
            };
            shape_fault(uri, sidecar) is None <==> base && if generation < 3 {
                !exact
            } else if generation == 4 {
                branch_merge_v4_defect(sidecar) is None
            } else if generation == 5 {
                &&& kind == SidecarKind::SchemaApply
                &&& sidecar.branch is None
                &&& !exact
                &&& sidecar.schema_apply_target_schema_ir_hash is Some
            } else if generation == 6 {
                ensure_indices_v6_defect(sidecar) is None
            } else if generation == 7 {
                schema_apply_v7_fault(uri, sidecar) is None
            } else if generation == 8 {
                ensure_indices_v8_defect(sidecar) is None
            } else if generation == 9 {
                match kind {
                    SidecarKind::Mutation | SidecarKind::Load => mutation_load_defect(sidecar)
                        is None,
                    SidecarKind::BranchMerge => branch_merge_v4_defect(sidecar) is None,
                    SidecarKind::SchemaApply => schema_apply_v7_fault(uri, sidecar) is None,
                    SidecarKind::EnsureIndices => ensure_indices_v8_defect(sidecar) is None,
                    SidecarKind::Optimize => optimize_v9_defect(sidecar) is None,
                }
            } else {
                (kind == SidecarKind::Mutation || kind == SidecarKind::Load)
                    && mutation_load_defect(sidecar) is None
            }
        }),
{
}

/// Every table of a sidecar of the newest generation lies in the graph that the sidecar
/// was found in, exactly at the place that goes with its alias and its identity. Older
/// ones are not held to that.
pub proof fn lemma_tables_lie_in_the_graph(
    root: Seq<char>,
    uri: Seq<char>,
    sidecar: RecoverySidecarModel,
)
    ensures
        ownership_fault(root, uri, sidecar) is None <==> (sidecar.schema_version == 9 ==> forall|
            i: int,
        |
            0 <= i < sidecar.tables.len() ==> {
                let path = path_of(
                    (#[trigger] sidecar.tables[i]).table_key,
                    sidecar.tables[i].identity,
                );
                path is Some && sidecar.tables[i].table_path == trimmed_end(root) + "/"@ + path->0
            }),
{
    let findings = pin_path_findings(root, uri, sidecar.tables);
    lemma_reported_is_the_first(findings);
    let pins = sidecar.tables;
    assert forall|i: int| 0 <= i < pins.len() implies (#[trigger] findings[i] is None <==> {
        let path = path_of(pins[i].table_key, pins[i].identity);
        path is Some && pins[i].table_path == trimmed_end(root) + "/"@ + path->0
    }) by {}
    if first_defect(findings) is None {
        assert forall|i: int| 0 <= i < pins.len() implies {
            let path = path_of((#[trigger] pins[i]).table_key, pins[i].identity);
            path is Some && pins[i].table_path == trimmed_end(root) + "/"@ + path->0
        } by {
            assert(findings[i] is None);
        }
    } else {
        let i = choose|i: int|
            {
                &&& 0 <= i < findings.len()
                &&& #[trigger] findings[i] == first_defect(findings)
                &&& forall|j: int| 0 <= j < i ==> (#[trigger] findings[j]) is None
            };
        let pin = pins[i];
        assert(findings[i] is Some);
    }
}

} // verus!
