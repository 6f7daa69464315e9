//! The confirmation of mutations and loads.

use vstd::prelude::*;

use crate::confirm::common::{
    about, confirm_pins, confirm_slots, confirmed_pins, confirmed_slots, confirms, do_keys_match,
    error_about, keys_match, update_of,
};
use crate::error::{internal, OmniError, OmniErrorModel};
use crate::history::{transaction_text, transaction_to_text};
use crate::identity::{IdentityMap, TableIdentity};
use crate::lookup::{find_by_identity, identities, place_of, within};
use crate::publish::{SubTableUpdate, SubTableUpdateModel};
use crate::shape::defect::{first_defect, lemma_first_defect, lemma_no_defect};
use crate::shape::sound::lemma_sound_mutation;
use crate::shape::validate::{shape_fault, validate_sidecar_shape};
use crate::sidecar::{
    RecoveryEffectPhase, RecoveryManifestDeltaModel, RecoveryProtocolV3, RecoveryProtocolV3Model,
    RecoverySidecar, RecoverySidecarModel, RecoveryTableEffect, RecoveryTableEffectModel,
    SidecarTablePin, SidecarTablePinModel, StagedTransactionIdentity,
    StagedTransactionIdentityModel,
};
use crate::store::{sidecar_uri, uri_of};
use crate::text::{cat2, cat5, cat6, decimal, decimal_text, name_text, name_to_text};
use crate::value::{opt_view, same_opt, views, Replicate, Same};

verus! {

/// How messages spell an achieved or planned output.
pub open spec fn output_text(version: u64, branch: Option<Seq<char>>) -> Seq<char> {
    "("@ + decimal(version as nat) + ", "@ + name_text(branch) + ")"@
}

/// An achieved or planned output, as messages spell it.
fn output_to_text(version: u64, branch: &Option<String>) -> (text: String)
    ensures
        text@ == output_text(version, opt_view(*branch)),
{
    let digits: String = decimal_text(version);
    let name: String = name_to_text(branch);
    cat5("(", digits.as_str(), ", ", name.as_str(), ")")
}

/// Why an effect is not as it was planned, if so.
pub open spec fn occ_effect_fault(
    operation_id: Seq<char>,
    pin: SidecarTablePinModel,
    effect: RecoveryTableEffectModel,
    update: SubTableUpdateModel,
    committed: StagedTransactionIdentityModel,
) -> Option<OmniErrorModel> {
    if committed != effect.planned_transaction {
        Some(
            about(
                "OCC"@,
                operation_id,
                "' table '"@ + effect.table_key + "' committed transaction "@ + transaction_text(
                    committed,
                ) + ", planned "@ + (transaction_text(effect.planned_transaction)
                    + "; leaving recovery Armed"@),
            ),
        )
    } else if pin.table_key != effect.table_key || update.table_key != effect.table_key
        || update.table_version != pin.post_commit_pin || update.table_branch
        != pin.table_branch {
        Some(
            about(
                "OCC"@,
                operation_id,
                "' table '"@ + effect.table_key + "' achieved version/branch "@ + output_text(
                    update.table_version,
                    update.table_branch,
                ) + ", planned "@ + (output_text(pin.post_commit_pin, pin.table_branch)
                    + "; leaving recovery Armed"@),
            ),
        )
    } else {
        None
    }
}

/// Why the effects of a mutation or load are not as they were planned.
pub open spec fn occ_effect_faults(
    operation_id: Seq<char>,
    pins: Seq<SidecarTablePinModel>,
    effects: Seq<RecoveryTableEffectModel>,
    updates: Seq<SubTableUpdateModel>,
    committed: Map<TableIdentity, StagedTransactionIdentityModel>,
) -> Seq<Option<OmniErrorModel>> {
    Seq::new(
        effects.len(),
        |i: int|
            occ_effect_fault(
                operation_id,
                find_by_identity::<SidecarTablePin>(pins, effects[i].identity)->0,
                effects[i],
                update_of(updates, effects[i].identity)->0,
                committed[effects[i].identity],
            ),
    )
}

/// The effects with the transactions that were committed.
pub open spec fn confirmed_effects(
    effects: Seq<RecoveryTableEffectModel>,
    committed: Map<TableIdentity, StagedTransactionIdentityModel>,
) -> Seq<RecoveryTableEffectModel> {
    Seq::new(
        effects.len(),
        |i: int|
            RecoveryTableEffectModel {
                confirmed_transaction: Some(committed[effects[i].identity]),
                ..effects[i]
            },
    )
}

/// The sidecar of a mutation or load with everything that was achieved.
pub open spec fn occ_confirmed(
    sidecar: RecoverySidecarModel,
    payload: RecoveryProtocolV3Model,
    updates: Seq<SubTableUpdateModel>,
    committed: Map<TableIdentity, StagedTransactionIdentityModel>,
) -> RecoverySidecarModel {
    RecoverySidecarModel {
        tables: confirmed_pins(sidecar.tables, updates),
        protocol_v3: Some(
            RecoveryProtocolV3Model {
                effect_phase: RecoveryEffectPhase::EffectsConfirmed,
                effects: confirmed_effects(payload.effects, committed),
                intended_delta: RecoveryManifestDeltaModel {
                    table_updates: confirmed_slots(
                        payload.intended_delta.table_updates,
                        updates,
                    ),
                    ..payload.intended_delta
                },
                ..payload
            },
        ),
        ..sidecar
    }
}

/// The confirmed sidecar of a mutation or load, or why it stays armed.
pub open spec fn occ_confirmation(
    root: Seq<char>,
    sidecar: RecoverySidecarModel,
    updates: Seq<SubTableUpdateModel>,
    committed: Map<TableIdentity, StagedTransactionIdentityModel>,
) -> Result<RecoverySidecarModel, OmniErrorModel> {
    let uri = uri_of(root, sidecar.operation_id);
    if shape_fault(uri, sidecar) is Some {
        Err(shape_fault(uri, sidecar)->0)
    } else {
        match sidecar.protocol_v3 {
            None => Err(
                internal("confirm_occ_sidecar_v9 requires a schema-v9 OCC sidecar"@),
            ),
            Some(payload) => {
                let faults = occ_effect_faults(
                    sidecar.operation_id,
                    sidecar.tables,
                    payload.effects,
                    updates,
                    committed,
                );
                let confirmed = occ_confirmed(sidecar, payload, updates, committed);
                if payload.effect_phase != RecoveryEffectPhase::Armed {
                    Err(about("OCC"@, sidecar.operation_id, "' is already EffectsConfirmed"@))
                } else if !keys_match(
                    identities::<RecoveryTableEffect>(payload.effects),
                    updates,
                    committed,
                ) {
                    Err(
                        about(
                            "OCC"@,
                            sidecar.operation_id,
                            "' confirmation key set differs from its planned effects"@,
                        ),
                    )
                } else if first_defect(faults) is Some {
                    Err(first_defect(faults)->0)
                } else if shape_fault(uri, confirmed) is Some {
                    Err(shape_fault(uri, confirmed)->0)
                } else {
                    Ok(confirmed)
                }
            },
        }
    }
}

/// Checks one effect of a mutation or load.
fn check_occ_effect(
    operation_id: &str,
    pin: &SidecarTablePin,
    effect: &RecoveryTableEffect,
    update: &SubTableUpdate,
    committed: &StagedTransactionIdentity,
) -> (fault: Option<OmniError>)
    ensures
        opt_view(fault) == occ_effect_fault(
            operation_id@,
            pin@,
            effect@,
            update@,
            committed@,
        ),
{
    if !committed.same(&effect.planned_transaction) {
        let actual: String = transaction_to_text(committed);
        let planned: String = transaction_to_text(&effect.planned_transaction);
        let end: String = cat2(planned.as_str(), "; leaving recovery Armed");
        let rest: String = cat6(
            "' table '",
            effect.table_key.as_str(),
            "' committed transaction ",
            actual.as_str(),
            ", planned ",
            end.as_str(),
        );
        return Some(error_about("OCC", operation_id, rest.as_str()));
    }
    if pin.table_key != effect.table_key || update.table_key != effect.table_key
        || update.table_version != pin.post_commit_pin || !same_opt(
        &update.table_branch,
        &pin.table_branch,
    ) {
        let actual: String = output_to_text(update.table_version, &update.table_branch);
        let planned: String = output_to_text(pin.post_commit_pin, &pin.table_branch);
        let end: String = cat2(planned.as_str(), "; leaving recovery Armed");
        let rest: String = cat6(
            "' table '",
            effect.table_key.as_str(),
            "' achieved version/branch ",
            actual.as_str(),
            ", planned ",
            end.as_str(),
        );
        return Some(error_about("OCC", operation_id, rest.as_str()));
    }
    None
}

/// Checks that every effect of a mutation or load is as it was planned.
fn check_occ_effects(
    sidecar: &RecoverySidecar,
    payload: &RecoveryProtocolV3,
    updates: &Vec<SubTableUpdate>,
    committed: &IdentityMap<StagedTransactionIdentity>,
) -> (fault: Option<OmniError>)
    requires
        within(
            identities::<RecoveryTableEffect>(payload@.effects),
            identities::<SidecarTablePin>(sidecar@.tables),
        ),
        keys_match(
            identities::<RecoveryTableEffect>(payload@.effects),
            views(updates@),
            committed@,
        ),
    ensures
        opt_view(fault) == first_defect(
            occ_effect_faults(
                sidecar@.operation_id,
                sidecar@.tables,
                payload@.effects,
                views(updates@),
                committed@,
            ),
        ),
{
    let effects: &Vec<RecoveryTableEffect> = &payload.effects;
    let ghost models = payload@.effects;
    let ghost ids = identities::<RecoveryTableEffect>(models);
    let ghost faults = occ_effect_faults(
        sidecar@.operation_id,
        sidecar@.tables,
        models,
        views(updates@),
        committed@,
    );
    let mut i: usize = 0;
    while i < effects.len()
        invariant
            i <= effects.len(),
            *effects == payload.effects,
            models == views(effects@),
            ids == identities::<RecoveryTableEffect>(models),
            within(ids, identities::<SidecarTablePin>(sidecar@.tables)),
            keys_match(ids, views(updates@), committed@),
            faults == occ_effect_faults(
                sidecar@.operation_id,
                sidecar@.tables,
                models,
                views(updates@),
                committed@,
            ),
            forall|j: int| 0 <= j < i ==> faults[j] is None,
        decreases effects.len() - i,
    {
        let effect: &RecoveryTableEffect = &effects[i];
        assert(models[i as int] == effect@);
        assert(ids[i as int] == effect.identity);
        match (
            place_of(&sidecar.tables, effect.identity),
            place_of(updates, effect.identity),
            committed.get(effect.identity),
        ) {
            (Some(p), Some(u), Some(transaction)) => {
                let fault: Option<OmniError> = check_occ_effect(
                    sidecar.operation_id.as_str(),
                    &sidecar.tables[p],
                    effect,
                    &updates[u],
                    transaction,
                );
                assert(faults[i as int] == opt_view(fault));
                if fault.is_some() {
                    proof {
                        lemma_first_defect(faults, i as int);
                    }
                    return fault;
                }
            },
            _ => {
                assert(false);
            },
        }
        i += 1;
    }
    proof {
        lemma_no_defect(faults);
    }
    None
}

/// Puts the committed transactions into the effects.
fn confirm_effects(
    effects: &Vec<RecoveryTableEffect>,
    committed: &IdentityMap<StagedTransactionIdentity>,
) -> (confirmed: Vec<RecoveryTableEffect>)
    requires
        forall|i: int|
            0 <= i < effects@.len() ==> committed@.contains_key(
                #[trigger] identities::<RecoveryTableEffect>(views(effects@))[i],
            ),
    ensures
        views(confirmed@) == confirmed_effects(views(effects@), committed@),
{
    let ghost models = views(effects@);
    let ghost ids = identities::<RecoveryTableEffect>(models);
    let ghost expected = confirmed_effects(models, committed@);
    let mut confirmed: Vec<RecoveryTableEffect> = Vec::new();
    let mut i: usize = 0;
    while i < effects.len()
        invariant
            i <= effects.len(),
            models == views(effects@),
            ids == identities::<RecoveryTableEffect>(models),
            expected == confirmed_effects(models, committed@),
            forall|j: int| 0 <= j < effects@.len() ==> committed@.contains_key(#[trigger] ids[j]),
            confirmed.len() == i,
            forall|j: int| 0 <= j < i ==> (#[trigger] confirmed@[j])@ == expected[j],
        decreases effects.len() - i,
    {
        assert(models[i as int] == effects@[i as int]@);
        assert(ids[i as int] == effects@[i as int].identity);
        let mut effect: RecoveryTableEffect = effects[i].replicate();
        if let Some(transaction) = committed.get(effects[i].identity) {
            effect.confirmed_transaction = Some(transaction.replicate());
        }
        confirmed.push(effect);
        i += 1;
    }
    assert(views(confirmed@) =~= expected);
    confirmed
}

/// Binds every achieved output of a mutation or load. A missing table, another
/// transaction, or another version or branch than planned leaves the sidecar
/// armed; so does a transaction that landed at a later version.
pub fn confirm_occ_sidecar_v9(
    root_uri: &str,
    sidecar: &RecoverySidecar,
    updates: &Vec<SubTableUpdate>,
    committed_transactions: &IdentityMap<StagedTransactionIdentity>,
) -> (result: Result<RecoverySidecar, OmniError>)
    ensures
        confirms(
            result,
            occ_confirmation(root_uri@, sidecar@, views(updates@), committed_transactions@),
        ),
{
    let uri: String = sidecar_uri(root_uri, sidecar.operation_id.as_str());
    if let Err(error) = validate_sidecar_shape(uri.as_str(), sidecar) {
        return Err(error);
    }
    let payload: &RecoveryProtocolV3 = match &sidecar.protocol_v3 {
        Some(payload) => payload,
        None => {
            return Err(
                OmniError::manifest_internal(
                    "confirm_occ_sidecar_v9 requires a schema-v9 OCC sidecar",
                ),
            );
        },
    };
    if payload.effect_phase != RecoveryEffectPhase::Armed {
        return Err(
            error_about("OCC", sidecar.operation_id.as_str(), "' is already EffectsConfirmed"),
        );
    }
    if !do_keys_match(&payload.effects, updates, committed_transactions) {
        return Err(
            error_about(
                "OCC",
                sidecar.operation_id.as_str(),
                "' confirmation key set differs from its planned effects",
            ),
        );
    }
    proof {
        lemma_sound_mutation(uri@, sidecar@);
    }
    if let Some(error) = check_occ_effects(sidecar, payload, updates, committed_transactions) {
        return Err(error);
    }
    let mut confirmed_payload: RecoveryProtocolV3 = payload.replicate();
    confirmed_payload.effects = confirm_effects(&payload.effects, committed_transactions);
    confirmed_payload.intended_delta.table_updates = confirm_slots(
        &payload.intended_delta.table_updates,
        updates,
    );
    confirmed_payload.effect_phase = RecoveryEffectPhase::EffectsConfirmed;
    let mut confirmed: RecoverySidecar = sidecar.replicate();
    confirmed.protocol_v3 = Some(confirmed_payload);
    confirmed.tables = confirm_pins(&sidecar.tables, updates);
    assert(confirmed@ == occ_confirmed(
        sidecar@,
        payload@,
        views(updates@),
        committed_transactions@,
    ));
    if let Err(error) = validate_sidecar_shape(uri.as_str(), &confirmed) {
        return Err(error);
    }
    Ok(confirmed)
}

} // verus!
