//! The shape of a mutation or load sidecar: one exact transaction and one output
//! slot for each pinned table.

use vstd::prelude::*;

use crate::error::{fails_as, OmniError};
use crate::lookup::{
    find_by_identity, identities, identities_distinct, identities_equal, place_of, planned_uuids,
    planned_uuids_distinct, same_elements,
};
use crate::shape::defect::{
    authority_defect, first_defect, lemma_first_defect, lemma_no_defect, malformed_error,
    malformed_if, named_branch, pins_defect, plan_is_sound, plan_sound, same_branch,
    validate_authority_identity, validate_unique_pin_identities,
};
use crate::sidecar::{
    RecoveryEffectPhase, RecoveryProtocolV3, RecoveryProtocolV3Model, RecoverySidecar,
    RecoverySidecarModel, RecoveryTableEffect, RecoveryTableEffectModel, RecoveryTableUpdateSlot,
    RecoveryTableUpdateSlotModel, SidecarTablePin, SidecarTablePinModel,
};
use crate::text::{cat3, cat6, decimal, decimal_text};
use crate::value::{opt_view, same_opt, views, Same};

verus! {

/// Whether the effects and the output slots belong to the pins one to one, and
/// no two effects share a transaction.
pub open spec fn one_to_one(
    protocol: RecoveryProtocolV3Model,
    pins: Seq<SidecarTablePinModel>,
) -> bool {
    let pin_ids = identities::<SidecarTablePin>(pins);
    let effect_ids = identities::<RecoveryTableEffect>(protocol.effects);
    let slot_ids = identities::<RecoveryTableUpdateSlot>(protocol.intended_delta.table_updates);
    &&& effect_ids.no_duplicates()
    &&& planned_uuids::<RecoveryTableEffect>(protocol.effects).no_duplicates()
    &&& slot_ids.no_duplicates()
    &&& same_elements(effect_ids, pin_ids)
    &&& same_elements(slot_ids, pin_ids)
}

/// What one pinned table is refused with.
pub open spec fn table_defect(
    phase: RecoveryEffectPhase,
    pin: SidecarTablePinModel,
    effect: RecoveryTableEffectModel,
    slot: RecoveryTableUpdateSlotModel,
) -> Option<Seq<char>> {
    if effect.table_key != pin.table_key || slot.table_key != pin.table_key {
        Some(
            "identity "@ + pin.identity.text()
                + " has inconsistent diagnostic aliases across pin/effect/delta"@,
        )
    } else if effect.planned_transaction.read_version != pin.expected_version {
        Some(
            "planned transaction for '"@ + pin.table_key + "' reads version "@ + decimal(
                effect.planned_transaction.read_version as nat,
            ) + ", pin expects "@ + decimal(pin.expected_version as nat),
        )
    } else if slot.expected_version != pin.expected_version || slot.table_branch
        != pin.table_branch {
        Some(
            "intended-delta pre-state for '"@ + pin.table_key + "' does not match its table pin"@,
        )
    } else {
        match phase {
            RecoveryEffectPhase::Armed => if effect.confirmed_transaction is Some || slot.confirmed
                is Some || pin.confirmed_version is Some {
                Some("Armed effect '"@ + pin.table_key + "' already carries confirmation"@)
            } else {
                None
            },
            RecoveryEffectPhase::EffectsConfirmed => match (
                effect.confirmed_transaction,
                slot.confirmed,
            ) {
                (None, _) => Some(
                    "EffectsConfirmed effect '"@ + pin.table_key
                        + "' lacks a transaction identity"@,
                ),
                (Some(_), None) => Some(
                    "EffectsConfirmed effect '"@ + pin.table_key + "' lacks a manifest update"@,
                ),
                (Some(transaction), Some(update)) => if transaction != effect.planned_transaction {
                    Some(
                        "confirmed transaction for '"@ + pin.table_key
                            + "' differs from its planned identity"@,
                    )
                } else if pin.confirmed_version != Some(update.table_version)
                    || update.table_branch != pin.table_branch {
                    Some(
                        "confirmed update for '"@ + pin.table_key
                            + "' does not match its table pin"@,
                    )
                } else {
                    None
                },
            },
        }
    }
}

/// What is found of every pinned table.
pub open spec fn table_findings(
    protocol: RecoveryProtocolV3Model,
    pins: Seq<SidecarTablePinModel>,
) -> Seq<Option<Seq<char>>> {
    Seq::new(
        pins.len(),
        |i: int|
            table_defect(
                protocol.effect_phase,
                pins[i],
                find_by_identity::<RecoveryTableEffect>(protocol.effects, pins[i].identity)->0,
                find_by_identity::<RecoveryTableUpdateSlot>(
                    protocol.intended_delta.table_updates,
                    pins[i].identity,
                )->0,
            ),
    )
}

/// What a mutation or load sidecar is refused with: the first rule, in this
/// order, that it breaks.
pub open spec fn mutation_load_defect(sidecar: RecoverySidecarModel) -> Option<Seq<char>> {
    match sidecar.protocol_v3 {
        None => Some("missing required protocol_v3 payload"@),
        Some(protocol) => {
            let delta = protocol.intended_delta;
            if sidecar.protocol_v4 is Some || sidecar.protocol_v7 is Some || sidecar.protocol_v8
                is Some || sidecar.ensure_indices_rollback_v6 is Some
                || sidecar.merge_source_commit_id is Some
                || sidecar.schema_apply_manifest_published
                || sidecar.schema_apply_target_schema_ir_hash is Some {
                Some("Mutation/Load sidecars must carry only the protocol_v3 writer payload"@)
            } else if authority_defect(protocol.authority) is Some {
                authority_defect(protocol.authority)
            } else if sidecar.additional_registrations.len() > 0 || sidecar.tombstones.len() > 0
                || delta.registrations.len() > 0 || delta.renames.len() > 0
                || delta.tombstones.len() > 0 {
                Some("v3 Mutation/Load sidecars cannot register or tombstone tables"@)
            } else if named_branch(sidecar.branch) != named_branch(protocol.lineage.branch) {
                Some("sidecar branch does not match original lineage branch"@)
            } else if sidecar.actor_id != protocol.lineage.actor_id {
                Some("sidecar actor does not match original lineage actor"@)
            } else if protocol.lineage.merged_parent_commit_id is Some {
                Some("v3 Mutation/Load lineage cannot carry a merged parent"@)
            } else if protocol.rollback_graph_commit_id == protocol.lineage.graph_commit_id {
                Some("original and rollback graph commit ids must differ"@)
            } else if pins_defect(sidecar.tables, false) is Some {
                pins_defect(sidecar.tables, false)
            } else if !plan_sound(protocol.rollback_audit_outcomes, sidecar.tables) {
                Some("rollback audit outcomes must name a unique subset of table pins"@)
            } else if !one_to_one(protocol, sidecar.tables) {
                Some(
                    "table pins, planned transaction identities, and intended-delta key sets are not one-to-one"@,
                )
            } else {
                first_defect(table_findings(protocol, sidecar.tables))
            }
        },
    }
}

/// Refuses one pinned table whose effect or slot does not fit it.
fn check_table(
    phase: RecoveryEffectPhase,
    pin: &SidecarTablePin,
    effect: &RecoveryTableEffect,
    slot: &RecoveryTableUpdateSlot,
) -> (defect: Option<String>)
    ensures
        opt_view(defect) == table_defect(phase, pin@, effect@, slot@),
{
    let key: &str = pin.table_key.as_str();
    if effect.table_key != pin.table_key || slot.table_key != pin.table_key {
        let identity: String = pin.identity.to_text();
        return Some(
            cat3(
                "identity ",
                identity.as_str(),
                " has inconsistent diagnostic aliases across pin/effect/delta",
            ),
        );
    }
    if effect.planned_transaction.read_version != pin.expected_version {
        let read: String = decimal_text(effect.planned_transaction.read_version);
        let expected: String = decimal_text(pin.expected_version);
        return Some(
            cat6(
                "planned transaction for '",
                key,
                "' reads version ",
                read.as_str(),
                ", pin expects ",
                expected.as_str(),
            ),
        );
    }
    if slot.expected_version != pin.expected_version || !same_opt(
        &slot.table_branch,
        &pin.table_branch,
    ) {
        return Some(
            cat3("intended-delta pre-state for '", key, "' does not match its table pin"),
        );
    }
    match phase {
        RecoveryEffectPhase::Armed => {
            if effect.confirmed_transaction.is_some() || slot.confirmed.is_some()
                || pin.confirmed_version.is_some() {
                return Some(cat3("Armed effect '", key, "' already carries confirmation"));
            }
            None
        },
        RecoveryEffectPhase::EffectsConfirmed => {
            let transaction = match &effect.confirmed_transaction {
                Some(transaction) => transaction,
                None => {
                    return Some(
                        cat3("EffectsConfirmed effect '", key, "' lacks a transaction identity"),
                    );
                },
            };
            let update = match &slot.confirmed {
                Some(update) => update,
                None => {
                    return Some(
                        cat3("EffectsConfirmed effect '", key, "' lacks a manifest update"),
                    );
                },
            };
            if !transaction.same(&effect.planned_transaction) {
                return Some(
                    cat3(
                        "confirmed transaction for '",
                        key,
                        "' differs from its planned identity",
                    ),
                );
            }
            if !same_opt(&pin.confirmed_version, &Some(update.table_version)) || !same_opt(
                &update.table_branch,
                &pin.table_branch,
            ) {
                return Some(cat3("confirmed update for '", key, "' does not match its table pin"));
            }
            None
        },
    }
}

/// Refuses the first pinned table whose effect or slot does not fit it.
fn check_tables(protocol: &RecoveryProtocolV3, pins: &Vec<SidecarTablePin>) -> (defect: Option<
    String,
>)
    requires
        one_to_one(protocol@, views(pins@)),
    ensures
        opt_view(defect) == first_defect(table_findings(protocol@, views(pins@))),
{
    let ghost findings = table_findings(protocol@, views(pins@));
    let mut i: usize = 0;
    while i < pins.len()
        invariant
            i <= pins.len(),
            one_to_one(protocol@, views(pins@)),
            findings == table_findings(protocol@, views(pins@)),
            forall|j: int| 0 <= j < i ==> findings[j] is None,
        decreases pins.len() - i,
    {
        let pin: &SidecarTablePin = &pins[i];
        assert(identities::<SidecarTablePin>(views(pins@))[i as int] == pin.identity);
        if let Some(e) = place_of(&protocol.effects, pin.identity) {
            if let Some(s) = place_of(&protocol.intended_delta.table_updates, pin.identity) {
                let defect: Option<String> = check_table(
                    protocol.effect_phase,
                    pin,
                    &protocol.effects[e],
                    &protocol.intended_delta.table_updates[s],
                );
                assert(opt_view(defect) == findings[i as int]);
                if defect.is_some() {
                    proof {
                        lemma_first_defect(findings, i as int);
                    }
                    return defect;
                }
            }
        }
        i += 1;
    }
    proof {
        lemma_no_defect(findings);
    }
    None
}

/// Finds the first rule that a mutation or load sidecar breaks.
fn find_defect(sidecar: &RecoverySidecar) -> (defect: Option<String>)
    ensures
        opt_view(defect) == mutation_load_defect(sidecar@),
{
    let protocol: &RecoveryProtocolV3 = match &sidecar.protocol_v3 {
        Some(protocol) => protocol,
        None => {
            return Some("missing required protocol_v3 payload".to_owned());
        },
    };
    if sidecar.protocol_v4.is_some() || sidecar.protocol_v7.is_some()
        || sidecar.protocol_v8.is_some() || sidecar.ensure_indices_rollback_v6.is_some()
        || sidecar.merge_source_commit_id.is_some() || sidecar.schema_apply_manifest_published
        || sidecar.schema_apply_target_schema_ir_hash.is_some() {
        return Some(
            "Mutation/Load sidecars must carry only the protocol_v3 writer payload".to_owned(),
        );
    }
    let authority: Option<String> = validate_authority_identity(&protocol.authority);
    if authority.is_some() {
        return authority;
    }
    let delta = &protocol.intended_delta;
    if !sidecar.additional_registrations.is_empty() || !sidecar.tombstones.is_empty()
        || !delta.registrations.is_empty() || !delta.renames.is_empty()
        || !delta.tombstones.is_empty() {
        return Some("v3 Mutation/Load sidecars cannot register or tombstone tables".to_owned());
    }
    if !same_branch(&sidecar.branch, &protocol.lineage.branch) {
        return Some("sidecar branch does not match original lineage branch".to_owned());
    }
    if !same_opt(&sidecar.actor_id, &protocol.lineage.actor_id) {
        return Some("sidecar actor does not match original lineage actor".to_owned());
    }
    if protocol.lineage.merged_parent_commit_id.is_some() {
        return Some("v3 Mutation/Load lineage cannot carry a merged parent".to_owned());
    }
    if protocol.rollback_graph_commit_id == protocol.lineage.graph_commit_id {
        return Some("original and rollback graph commit ids must differ".to_owned());
    }
    let pins: Option<String> = validate_unique_pin_identities(&sidecar.tables, false);
    if pins.is_some() {
        return pins;
    }
    if !plan_is_sound(&protocol.rollback_audit_outcomes, &sidecar.tables) {
        return Some("rollback audit outcomes must name a unique subset of table pins".to_owned());
    }
    if !identities_distinct(&protocol.effects) || !planned_uuids_distinct(&protocol.effects)
        || !identities_distinct(&delta.table_updates) || !identities_equal(
        &protocol.effects,
        &sidecar.tables,
    ) || !identities_equal(&delta.table_updates, &sidecar.tables) {
        return Some(
            "table pins, planned transaction identities, and intended-delta key sets are not one-to-one".to_owned(),
        );
    }
    check_tables(protocol, &sidecar.tables)
}

/// Refuses a mutation or load sidecar that breaks a rule of its shape.
pub fn validate_mutation_load_shape(sidecar_uri: &str, sidecar: &RecoverySidecar) -> (result:
    Result<(), OmniError>)
    ensures
        fails_as(
            result,
            malformed_if(sidecar_uri@, sidecar.schema_version, mutation_load_defect(sidecar@)),
        ),
{
    match find_defect(sidecar) {
        Some(reason) => Err(
            malformed_error(sidecar_uri, sidecar.schema_version, reason.as_str()),
        ),
        None => Ok(()),
    }
}

} // verus!
