//! The shape of ensure-indices sidecars: the loose generation with a fixed
//! rollback, and the exact generation with one index transaction for each table.

use vstd::prelude::*;

use crate::error::{fails_as, OmniError};
use crate::lookup::{
    aliases, aliases_distinct, find_by_identity, identities, identities_distinct, identities_equal,
    place_of, planned_uuids, planned_uuids_distinct, planned_uuids_present, same_elements,
    uuids_present,
};
use crate::shape::defect::{
    authority_defect, first_defect, lemma_first_defect, lemma_no_defect, malformed_error,
    malformed_if, named_branch, pins_defect, plan_is_sound, plan_sound, same_branch,
    validate_authority_identity, validate_unique_pin_identities,
};
use crate::sidecar::{
    kind_text, RecoveryEffectPhase, RecoveryEnsureIndicesEffect, RecoveryEnsureIndicesEffectModel,
    RecoveryEnsureIndicesRollbackV6, RecoveryProtocolV8, RecoveryProtocolV8Model, RecoverySidecar,
    RecoverySidecarModel, RecoveryTableUpdateSlot, RecoveryTableUpdateSlotModel, SidecarKind,
    SidecarTablePin, SidecarTablePinModel,
};
use crate::text::{cat2, cat3, same_text};
use crate::value::{opt_view, same_opt, views, Same};

verus! {

/// What a loose ensure-indices sidecar is refused with: the first rule, in this
/// order, that it breaks.
pub open spec fn ensure_indices_v6_defect(sidecar: RecoverySidecarModel) -> Option<Seq<char>> {
    if sidecar.writer_kind != SidecarKind::EnsureIndices {
        Some("schema-v6 is reserved for EnsureIndices, found "@ + kind_text(sidecar.writer_kind))
    } else if sidecar.protocol_v3 is Some || sidecar.protocol_v4 is Some || sidecar.protocol_v7
        is Some || sidecar.protocol_v8 is Some || sidecar.merge_source_commit_id is Some
        || sidecar.additional_registrations.len() > 0 || sidecar.tombstones.len() > 0 {
        Some(
            "schema-v6 EnsureIndices cannot carry exact, merge, registration, or tombstone fields"@,
        )
    } else {
        match sidecar.ensure_indices_rollback_v6 {
            None => Some("schema-v6 EnsureIndices is missing its fixed rollback payload"@),
            Some(rollback) => if rollback.rollback_graph_commit_id.len() == 0 {
                Some("schema-v6 EnsureIndices has an empty rollback commit id"@)
            } else if sidecar.tables.len() == 0 || !aliases::<SidecarTablePin>(
                sidecar.tables,
            ).no_duplicates() {
                Some("schema-v6 EnsureIndices requires unique non-empty table pins"@)
            } else if !plan_sound(rollback.rollback_audit_outcomes, sidecar.tables) {
                Some("rollback audit outcomes must name a unique subset of table pins"@)
            } else {
                None
            },
        }
    }
}

/// Finds the first rule that a loose ensure-indices sidecar breaks.
fn find_v6_defect(sidecar: &RecoverySidecar) -> (defect: Option<String>)
    ensures
        opt_view(defect) == ensure_indices_v6_defect(sidecar@),
{
    if sidecar.writer_kind != SidecarKind::EnsureIndices {
        return Some(
            cat2("schema-v6 is reserved for EnsureIndices, found ", sidecar.writer_kind.name()),
        );
    }
    if sidecar.protocol_v3.is_some() || sidecar.protocol_v4.is_some()
        || sidecar.protocol_v7.is_some() || sidecar.protocol_v8.is_some()
        || sidecar.merge_source_commit_id.is_some() || !sidecar.additional_registrations.is_empty()
        || !sidecar.tombstones.is_empty() {
        return Some(
            "schema-v6 EnsureIndices cannot carry exact, merge, registration, or tombstone fields".to_owned(),
        );
    }
    let rollback: &RecoveryEnsureIndicesRollbackV6 = match &sidecar.ensure_indices_rollback_v6 {
        Some(rollback) => rollback,
        None => {
            return Some(
                "schema-v6 EnsureIndices is missing its fixed rollback payload".to_owned(),
            );
        },
    };
    if rollback.rollback_graph_commit_id.as_str().is_empty() {
        return Some("schema-v6 EnsureIndices has an empty rollback commit id".to_owned());
    }
    if sidecar.tables.is_empty() || !aliases_distinct(&sidecar.tables) {
        return Some("schema-v6 EnsureIndices requires unique non-empty table pins".to_owned());
    }
    if !plan_is_sound(&rollback.rollback_audit_outcomes, &sidecar.tables) {
        return Some("rollback audit outcomes must name a unique subset of table pins".to_owned());
    }
    None
}

/// Refuses a loose ensure-indices sidecar that breaks a rule of its shape.
pub fn validate_ensure_indices_v6_shape(sidecar_uri: &str, sidecar: &RecoverySidecar) -> (result:
    Result<(), OmniError>)
    ensures
        fails_as(
            result,
            malformed_if(sidecar_uri@, sidecar.schema_version, ensure_indices_v6_defect(sidecar@)),
        ),
{
    match find_v6_defect(sidecar) {
        Some(reason) => Err(
            malformed_error(sidecar_uri, sidecar.schema_version, reason.as_str()),
        ),
        None => Ok(()),
    }
}

/// Whether the effects and the output slots belong to the pins one to one, and
/// no two effects share a transaction.
pub open spec fn one_to_one(
    protocol: RecoveryProtocolV8Model,
    pins: Seq<SidecarTablePinModel>,
) -> bool {
    let pin_ids = identities::<SidecarTablePin>(pins);
    let effect_ids = identities::<RecoveryEnsureIndicesEffect>(protocol.effects);
    let slot_ids = identities::<RecoveryTableUpdateSlot>(protocol.intended_delta.table_updates);
    &&& effect_ids.no_duplicates()
    &&& planned_uuids::<RecoveryEnsureIndicesEffect>(protocol.effects).no_duplicates()
    &&& uuids_present::<RecoveryEnsureIndicesEffect>(protocol.effects)
    &&& slot_ids.no_duplicates()
    &&& same_elements(effect_ids, pin_ids)
    &&& same_elements(slot_ids, pin_ids)
}

/// Whether a first-touch effect forks the branch of its own sidecar at the
/// version that the pin expects.
pub open spec fn fork_consistent(
    sidecar_branch: Option<Seq<char>>,
    pin: SidecarTablePinModel,
    effect: RecoveryEnsureIndicesEffectModel,
) -> bool {
    effect.source_fork_version is Some ==> {
        &&& pin.table_branch is Some
        &&& pin.table_branch != Some("main"@)
        &&& pin.table_branch == named_branch(sidecar_branch)
        &&& effect.source_fork_version == Some(pin.expected_version)
    }
}

/// What one pinned table is refused with.
pub open spec fn table_defect(
    sidecar_branch: Option<Seq<char>>,
    phase: RecoveryEffectPhase,
    pin: SidecarTablePinModel,
    effect: RecoveryEnsureIndicesEffectModel,
    slot: RecoveryTableUpdateSlotModel,
) -> Option<Seq<char>> {
    if effect.table_key != pin.table_key || slot.table_key != pin.table_key {
        Some(
            "schema-v8 identity "@ + pin.identity.text()
                + " has inconsistent diagnostic aliases"@,
        )
    } else if pin.expected_version == u64::MAX {
        Some("schema-v8 effect '"@ + pin.table_key + "' overflows its output version"@)
    } else if effect.planned_transaction.read_version != pin.expected_version
        || pin.post_commit_pin != pin.expected_version + 1 || slot.expected_version
        != pin.expected_version || slot.table_branch != pin.table_branch {
        Some("schema-v8 effect '"@ + pin.table_key + "' does not match its pin/delta pre-state"@)
    } else if !fork_consistent(sidecar_branch, pin, effect) {
        Some(
            "schema-v8 effect '"@ + pin.table_key + "' has inconsistent first-touch fork identity"@,
        )
    } else {
        match phase {
            RecoveryEffectPhase::Armed => if effect.confirmed_transaction is Some
                || effect.confirmed_branch_identifier is Some || slot.confirmed is Some
                || pin.confirmed_version is Some {
                Some("Armed schema-v8 effect '"@ + pin.table_key + "' already carries confirmation"@)
            } else {
                None
            },
            RecoveryEffectPhase::EffectsConfirmed => match (
                effect.confirmed_transaction,
                slot.confirmed,
            ) {
                (None, _) => Some(
                    "EffectsConfirmed schema-v8 effect '"@ + pin.table_key
                        + "' lacks transaction confirmation"@,
                ),
                (Some(_), None) => Some(
                    "EffectsConfirmed schema-v8 effect '"@ + pin.table_key
                        + "' lacks a manifest output"@,
                ),
                (Some(transaction), Some(update)) => if transaction != effect.planned_transaction
                    || update.table_version != pin.expected_version + 1 || update.table_branch
                    != pin.table_branch || pin.confirmed_version != Some(update.table_version)
                    || (effect.source_fork_version is Some) != (effect.confirmed_branch_identifier
                    is Some) {
                    Some(
                        "schema-v8 effect '"@ + pin.table_key
                            + "' confirmation differs from its exact plan"@,
                    )
                } else {
                    None
                },
            },
        }
    }
}

/// What is found of every pinned table.
pub open spec fn table_findings(
    sidecar_branch: Option<Seq<char>>,
    protocol: RecoveryProtocolV8Model,
    pins: Seq<SidecarTablePinModel>,
) -> Seq<Option<Seq<char>>> {
    Seq::new(
        pins.len(),
        |i: int|
            table_defect(
                sidecar_branch,
                protocol.effect_phase,
                pins[i],
                find_by_identity::<RecoveryEnsureIndicesEffect>(
                    protocol.effects,
                    pins[i].identity,
                )->0,
                find_by_identity::<RecoveryTableUpdateSlot>(
                    protocol.intended_delta.table_updates,
                    pins[i].identity,
                )->0,
            ),
    )
}

/// What an exact ensure-indices sidecar is refused with: the first rule, in this
/// order, that it breaks.
pub open spec fn ensure_indices_v8_defect(sidecar: RecoverySidecarModel) -> Option<Seq<char>> {
    if sidecar.writer_kind != SidecarKind::EnsureIndices {
        Some("schema-v8 is reserved for EnsureIndices, found "@ + kind_text(sidecar.writer_kind))
    } else if sidecar.protocol_v3 is Some || sidecar.protocol_v4 is Some || sidecar.protocol_v7
        is Some || sidecar.ensure_indices_rollback_v6 is Some || sidecar.merge_source_commit_id
        is Some || sidecar.additional_registrations.len() > 0 || sidecar.tombstones.len() > 0
        || sidecar.schema_apply_manifest_published || sidecar.schema_apply_target_schema_ir_hash
        is Some {
        Some("schema-v8 EnsureIndices must carry authority/delta only in protocol_v8"@)
    } else {
        match sidecar.protocol_v8 {
            None => Some("missing required protocol_v8 payload"@),
            Some(protocol) => {
                let delta = protocol.intended_delta;
                let lineage = protocol.lineage;
                if authority_defect(protocol.authority) is Some {
                    authority_defect(protocol.authority)
                } else if delta.registrations.len() > 0 || delta.renames.len() > 0
                    || delta.tombstones.len() > 0 {
                    Some("schema-v8 EnsureIndices cannot register or tombstone tables"@)
                } else if named_branch(sidecar.branch) != named_branch(lineage.branch)
                    || sidecar.actor_id != lineage.actor_id || lineage.merged_parent_commit_id
                    is Some {
                    Some("schema-v8 sidecar branch/actor does not match its original lineage"@)
                } else if lineage.graph_commit_id.len() == 0
                    || protocol.rollback_graph_commit_id.len() == 0 || lineage.graph_commit_id
                    == protocol.rollback_graph_commit_id {
                    Some(
                        "schema-v8 original and rollback commit ids must be non-empty and distinct"@,
                    )
                } else if pins_defect(sidecar.tables, true) is Some {
                    pins_defect(sidecar.tables, true)
                } else if !one_to_one(protocol, sidecar.tables) {
                    Some(
                        "schema-v8 pins, effects, transaction UUIDs, and delta slots must be unique and one-to-one"@,
                    )
                } else if !plan_sound(protocol.rollback_audit_outcomes, sidecar.tables) {
                    Some(
                        "schema-v8 rollback audit outcomes must name a unique subset of table pins"@,
                    )
                } else {
                    first_defect(table_findings(sidecar.branch, protocol, sidecar.tables))
                }
            },
        }
    }
}

/// Whether a first-touch effect forks the branch of its own sidecar at the
/// version that the pin expects.
fn fork_is_consistent(
    sidecar_branch: &Option<String>,
    pin: &SidecarTablePin,
    effect: &RecoveryEnsureIndicesEffect,
) -> (answer: bool)
    ensures
        answer == fork_consistent(opt_view(*sidecar_branch), pin@, effect@),
{
    match effect.source_fork_version {
        None => true,
        Some(version) => {
            let on_target: bool = match (&pin.table_branch, sidecar_branch) {
                (Some(branch), Some(target)) => !same_text(branch.as_str(), "main") && *branch
                    == *target,
                _ => false,
            };
            on_target && version == pin.expected_version
        },
    }
}

/// Refuses one pinned table whose effect or slot does not fit it.
fn check_table(
    sidecar_branch: &Option<String>,
    phase: RecoveryEffectPhase,
    pin: &SidecarTablePin,
    effect: &RecoveryEnsureIndicesEffect,
    slot: &RecoveryTableUpdateSlot,
) -> (defect: Option<String>)
    ensures
        opt_view(defect) == table_defect(opt_view(*sidecar_branch), phase, pin@, effect@, slot@),
{
    let key: &str = pin.table_key.as_str();
    if effect.table_key != pin.table_key || slot.table_key != pin.table_key {
        let identity: String = pin.identity.to_text();
        return Some(
            cat3(
                "schema-v8 identity ",
                identity.as_str(),
                " has inconsistent diagnostic aliases",
            ),
        );
    }
    if pin.expected_version == u64::MAX {
        return Some(cat3("schema-v8 effect '", key, "' overflows its output version"));
    }
    let exact_output: u64 = pin.expected_version + 1;
    if effect.planned_transaction.read_version != pin.expected_version || pin.post_commit_pin
        != exact_output || slot.expected_version != pin.expected_version || !same_opt(
        &slot.table_branch,
        &pin.table_branch,
    ) {
        return Some(cat3("schema-v8 effect '", key, "' does not match its pin/delta pre-state"));
    }
    if !fork_is_consistent(sidecar_branch, pin, effect) {
        return Some(
            cat3("schema-v8 effect '", key, "' has inconsistent first-touch fork identity"),
        );
    }
    match phase {
        RecoveryEffectPhase::Armed => {
            if effect.confirmed_transaction.is_some()
                || effect.confirmed_branch_identifier.is_some() || slot.confirmed.is_some()
                || pin.confirmed_version.is_some() {
                return Some(
                    cat3("Armed schema-v8 effect '", key, "' already carries confirmation"),
                );
            }
            None
        },
        RecoveryEffectPhase::EffectsConfirmed => {
            let transaction = match &effect.confirmed_transaction {
                Some(transaction) => transaction,
                None => {
                    return Some(
                        cat3(
                            "EffectsConfirmed schema-v8 effect '",
                            key,
                            "' lacks transaction confirmation",
                        ),
                    );
                },
            };
            let update = match &slot.confirmed {
                Some(update) => update,
                None => {
                    return Some(
                        cat3(
                            "EffectsConfirmed schema-v8 effect '",
                            key,
                            "' lacks a manifest output",
                        ),
                    );
                },
            };
            if !transaction.same(&effect.planned_transaction) || update.table_version
                != exact_output || !same_opt(&update.table_branch, &pin.table_branch) || !same_opt(
                &pin.confirmed_version,
                &Some(exact_output),
            ) || effect.is_first_touch() != effect.confirmed_branch_identifier.is_some() {
                return Some(
                    cat3(
                        "schema-v8 effect '",
                        key,
                        "' confirmation differs from its exact plan",
                    ),
                );
            }
            None
        },
    }
}

/// Refuses the first pinned table whose effect or slot does not fit it.
fn check_tables(
    sidecar_branch: &Option<String>,
    protocol: &RecoveryProtocolV8,
    pins: &Vec<SidecarTablePin>,
) -> (defect: Option<String>)
    requires
        one_to_one(protocol@, views(pins@)),
    ensures
        opt_view(defect) == first_defect(
            table_findings(opt_view(*sidecar_branch), protocol@, views(pins@)),
        ),
{
    let ghost findings = table_findings(opt_view(*sidecar_branch), protocol@, views(pins@));
    let mut i: usize = 0;
    while i < pins.len()
        invariant
            i <= pins.len(),
            one_to_one(protocol@, views(pins@)),
            findings == table_findings(opt_view(*sidecar_branch), protocol@, views(pins@)),
            forall|j: int| 0 <= j < i ==> findings[j] is None,
        decreases pins.len() - i,
    {
        let pin: &SidecarTablePin = &pins[i];
        assert(identities::<SidecarTablePin>(views(pins@))[i as int] == pin.identity);
        if let Some(e) = place_of(&protocol.effects, pin.identity) {
            if let Some(s) = place_of(&protocol.intended_delta.table_updates, pin.identity) {
                let defect: Option<String> = check_table(
                    sidecar_branch,
                    protocol.effect_phase,
                    pin,
                    &protocol.effects[e],
                    &protocol.intended_delta.table_updates[s],
                );
                assert(opt_view(defect) == findings[i as int]);
                if defect.is_some() {
                    proof {
                        lemma_first_defect(findings, i as int);
                    }
                    return defect;
                }
            }
        }
        i += 1;
    }
    proof {
        lemma_no_defect(findings);
    }
    None
}

/// Finds the first rule that an exact ensure-indices sidecar breaks.
fn find_v8_defect(sidecar: &RecoverySidecar) -> (defect: Option<String>)
    ensures
        opt_view(defect) == ensure_indices_v8_defect(sidecar@),
{
    if sidecar.writer_kind != SidecarKind::EnsureIndices {
        return Some(
            cat2("schema-v8 is reserved for EnsureIndices, found ", sidecar.writer_kind.name()),
        );
    }
    if sidecar.protocol_v3.is_some() || sidecar.protocol_v4.is_some()
        || sidecar.protocol_v7.is_some() || sidecar.ensure_indices_rollback_v6.is_some()
        || sidecar.merge_source_commit_id.is_some() || !sidecar.additional_registrations.is_empty()
        || !sidecar.tombstones.is_empty() || sidecar.schema_apply_manifest_published
        || sidecar.schema_apply_target_schema_ir_hash.is_some() {
        return Some(
            "schema-v8 EnsureIndices must carry authority/delta only in protocol_v8".to_owned(),
        );
    }
    let protocol: &RecoveryProtocolV8 = match &sidecar.protocol_v8 {
        Some(protocol) => protocol,
        None => {
            return Some("missing required protocol_v8 payload".to_owned());
        },
    };
    let authority: Option<String> = validate_authority_identity(&protocol.authority);
    if authority.is_some() {
        return authority;
    }
    let delta = &protocol.intended_delta;
    if !delta.registrations.is_empty() || !delta.renames.is_empty() || !delta.tombstones.is_empty() {
        return Some("schema-v8 EnsureIndices cannot register or tombstone tables".to_owned());
    }
    let lineage = &protocol.lineage;
    if !same_branch(&sidecar.branch, &lineage.branch) || !same_opt(
        &sidecar.actor_id,
        &lineage.actor_id,
    ) || lineage.merged_parent_commit_id.is_some() {
        return Some(
            "schema-v8 sidecar branch/actor does not match its original lineage".to_owned(),
        );
    }
    if lineage.graph_commit_id.as_str().is_empty()
        || protocol.rollback_graph_commit_id.as_str().is_empty() || lineage.graph_commit_id
        == protocol.rollback_graph_commit_id {
        return Some(
            "schema-v8 original and rollback commit ids must be non-empty and distinct".to_owned(),
        );
    }
    let pins: Option<String> = validate_unique_pin_identities(&sidecar.tables, true);
    if pins.is_some() {
        return pins;
    }
    if !identities_distinct(&protocol.effects) || !planned_uuids_distinct(&protocol.effects)
        || !planned_uuids_present(&protocol.effects) || !identities_distinct(&delta.table_updates)
        || !identities_equal(&protocol.effects, &sidecar.tables) || !identities_equal(
        &delta.table_updates,
        &sidecar.tables,
    ) {
        return Some(
            "schema-v8 pins, effects, transaction UUIDs, and delta slots must be unique and one-to-one".to_owned(),
        );
    }
    if !plan_is_sound(&protocol.rollback_audit_outcomes, &sidecar.tables) {
        return Some(
            "schema-v8 rollback audit outcomes must name a unique subset of table pins".to_owned(),
        );
    }
    check_tables(&sidecar.branch, protocol, &sidecar.tables)
}

/// Refuses an exact ensure-indices sidecar that breaks a rule of its shape.
pub fn validate_ensure_indices_v8_shape(sidecar_uri: &str, sidecar: &RecoverySidecar) -> (result:
    Result<(), OmniError>)
    ensures
        fails_as(
            result,
            malformed_if(sidecar_uri@, sidecar.schema_version, ensure_indices_v8_defect(sidecar@)),
        ),
{
    match find_v8_defect(sidecar) {
        Some(reason) => Err(
            malformed_error(sidecar_uri, sidecar.schema_version, reason.as_str()),
        ),
        None => Ok(()),
    }
}

} // verus!
