//! The confirmation of schema applies.

use vstd::prelude::*;

use crate::confirm::common::{
    about, confirm_pins, confirm_slots, confirmed_pins, confirmed_slots, confirms, do_keys_match,
    error_about, keys_match, update_of,
};
use crate::error::{internal, OmniError, OmniErrorModel};
use crate::identity::{IdentityMap, TableIdentity};
use crate::lookup::{find_by_identity, identities, place_of, within};
use crate::publish::{SubTableUpdate, SubTableUpdateModel};
use crate::shape::defect::{first_defect, lemma_first_defect, lemma_no_defect};
use crate::shape::sound::lemma_sound_schema_apply;
use crate::shape::validate::{shape_fault, validate_sidecar_shape};
use crate::sidecar::{
    RecoveryEffectPhase, RecoveryManifestDeltaModel, RecoveryProtocolV7, RecoveryProtocolV7Model,
    RecoverySchemaApplyEffect, RecoverySchemaApplyEffectModel, RecoverySidecar,
    RecoverySidecarModel, SidecarTablePin, SidecarTablePinModel, StagedTransactionIdentity,
    StagedTransactionIdentityModel,
};
use crate::store::{sidecar_uri, uri_of};
use crate::text::cat3;
use crate::value::{opt_view, same_opt, views, Replicate, Same};

verus! {

/// Whether an effect is as it was planned.
pub open spec fn schema_effect_achieved(
    pin: SidecarTablePinModel,
    effect: RecoverySchemaApplyEffectModel,
    update: SubTableUpdateModel,
    committed: StagedTransactionIdentityModel,
) -> bool {
    &&& pin.table_key == effect.table_key
    &&& update.table_key == effect.table_key
    &&& committed == effect.kind.planned()
    &&& update.table_version == pin.post_commit_pin
    &&& update.table_branch == pin.table_branch
}

/// The error for an effect that is not as it was planned.
pub open spec fn schema_effect_error(operation_id: Seq<char>, alias: Seq<char>) -> OmniErrorModel {
    about(
        "SchemaApply"@,
        operation_id,
        "' table '"@ + alias
            + "' achieved transaction/version/branch outside its exact plan; leaving recovery Armed"@,
    )
}

/// Why the effects of a schema apply are not as they were planned.
pub open spec fn schema_effect_faults(
    operation_id: Seq<char>,
    pins: Seq<SidecarTablePinModel>,
    effects: Seq<RecoverySchemaApplyEffectModel>,
    updates: Seq<SubTableUpdateModel>,
    committed: Map<TableIdentity, StagedTransactionIdentityModel>,
) -> Seq<Option<OmniErrorModel>> {
    Seq::new(
        effects.len(),
        |i: int|
            if schema_effect_achieved(
                find_by_identity::<SidecarTablePin>(pins, effects[i].identity)->0,
                effects[i],
                update_of(updates, effects[i].identity)->0,
                committed[effects[i].identity],
            ) {
                None
            } else {
                Some(schema_effect_error(operation_id, effects[i].table_key))
            },
    )
}

/// The effects with the transactions that were committed.
pub open spec fn confirmed_effects(
    effects: Seq<RecoverySchemaApplyEffectModel>,
    committed: Map<TableIdentity, StagedTransactionIdentityModel>,
) -> Seq<RecoverySchemaApplyEffectModel> {
    Seq::new(
        effects.len(),
        |i: int|
            RecoverySchemaApplyEffectModel {
                kind: effects[i].kind.with_confirmed(committed[effects[i].identity]),
                ..effects[i]
            },
    )
}

/// The sidecar of a schema apply with everything that was achieved.
pub open spec fn schema_confirmed(
    sidecar: RecoverySidecarModel,
    payload: RecoveryProtocolV7Model,
    updates: Seq<SubTableUpdateModel>,
    committed: Map<TableIdentity, StagedTransactionIdentityModel>,
) -> RecoverySidecarModel {
    RecoverySidecarModel {
        tables: confirmed_pins(sidecar.tables, updates),
        protocol_v7: Some(
            RecoveryProtocolV7Model {
                effect_phase: RecoveryEffectPhase::EffectsConfirmed,
                effects: confirmed_effects(payload.effects, committed),
                intended_delta: RecoveryManifestDeltaModel {
                    table_updates: confirmed_slots(
                        payload.intended_delta.table_updates,
                        updates,
                    ),
                    ..payload.intended_delta
                },
                ..payload
            },
        ),
        ..sidecar
    }
}

/// The confirmed sidecar of a schema apply, or why it stays armed.
pub open spec fn schema_confirmation(
    root: Seq<char>,
    sidecar: RecoverySidecarModel,
    updates: Seq<SubTableUpdateModel>,
    committed: Map<TableIdentity, StagedTransactionIdentityModel>,
) -> Result<RecoverySidecarModel, OmniErrorModel> {
    let uri = uri_of(root, sidecar.operation_id);
    if shape_fault(uri, sidecar) is Some {
        Err(shape_fault(uri, sidecar)->0)
    } else {
        match sidecar.protocol_v7 {
            None => Err(
                internal("confirm_schema_apply_sidecar_v9 requires a schema-v9 sidecar"@),
            ),
            Some(payload) => {
                let faults = schema_effect_faults(
                    sidecar.operation_id,
                    sidecar.tables,
                    payload.effects,
                    updates,
                    committed,
                );
                let confirmed = schema_confirmed(sidecar, payload, updates, committed);
                if payload.effect_phase != RecoveryEffectPhase::Armed {
                    Err(
                        about(
                            "SchemaApply"@,
                            sidecar.operation_id,
                            "' is already EffectsConfirmed"@,
                        ),
                    )
                } else if !keys_match(
                    identities::<RecoverySchemaApplyEffect>(payload.effects),
                    updates,
                    committed,
                ) {
                    Err(
                        about(
                            "SchemaApply"@,
                            sidecar.operation_id,
                            "' confirmation key set differs from its planned effects"@,
                        ),
                    )
                } else if first_defect(faults) is Some {
                    Err(first_defect(faults)->0)
                } else if shape_fault(uri, confirmed) is Some {
                    Err(shape_fault(uri, confirmed)->0)
                } else {
                    Ok(confirmed)
                }
            },
        }
    }
}

/// Checks that every effect of a schema apply is as it was planned.
fn check_schema_effects(
    sidecar: &RecoverySidecar,
    payload: &RecoveryProtocolV7,
    updates: &Vec<SubTableUpdate>,
    committed: &IdentityMap<StagedTransactionIdentity>,
) -> (fault: Option<OmniError>)
    requires
        within(
            identities::<RecoverySchemaApplyEffect>(payload@.effects),
            identities::<SidecarTablePin>(sidecar@.tables),
        ),
        keys_match(
            identities::<RecoverySchemaApplyEffect>(payload@.effects),
            views(updates@),
            committed@,
        ),
    ensures
        opt_view(fault) == first_defect(
            schema_effect_faults(
                sidecar@.operation_id,
                sidecar@.tables,
                payload@.effects,
                views(updates@),
                committed@,
            ),
        ),
{
    let effects: &Vec<RecoverySchemaApplyEffect> = &payload.effects;
    let ghost models = payload@.effects;
    let ghost ids = identities::<RecoverySchemaApplyEffect>(models);
    let ghost faults = schema_effect_faults(
        sidecar@.operation_id,
        sidecar@.tables,
        models,
        views(updates@),
        committed@,
    );
    let mut i: usize = 0;
    while i < effects.len()
        invariant
            i <= effects.len(),
            *effects == payload.effects,
            models == views(effects@),
            ids == identities::<RecoverySchemaApplyEffect>(models),
            within(ids, identities::<SidecarTablePin>(sidecar@.tables)),
            keys_match(ids, views(updates@), committed@),
            faults == schema_effect_faults(
                sidecar@.operation_id,
                sidecar@.tables,
                models,
                views(updates@),
                committed@,
            ),
            forall|j: int| 0 <= j < i ==> faults[j] is None,
        decreases effects.len() - i,
    {
        let effect: &RecoverySchemaApplyEffect = &effects[i];
        assert(models[i as int] == effect@);
        assert(ids[i as int] == effect.identity);
        match (
            place_of(&sidecar.tables, effect.identity),
            place_of(updates, effect.identity),
            committed.get(effect.identity),
        ) {
            (Some(p), Some(u), Some(transaction)) => {
                let pin: &SidecarTablePin = &sidecar.tables[p];
                let update: &SubTableUpdate = &updates[u];
                let done: bool = pin.table_key == effect.table_key && update.table_key
                    == effect.table_key && transaction.same(effect.kind.planned_transaction())
                    && update.table_version == pin.post_commit_pin && same_opt(
                    &update.table_branch,
                    &pin.table_branch,
                );
                assert(done == schema_effect_achieved(pin@, effect@, update@, transaction@));
                if !done {
                    let rest: String = cat3(
                        "' table '",
                        effect.table_key.as_str(),
                        "' achieved transaction/version/branch outside its exact plan; leaving recovery Armed",
                    );
                    let error: OmniError = error_about(
                        "SchemaApply",
                        sidecar.operation_id.as_str(),
                        rest.as_str(),
                    );
                    proof {
                        assert(faults[i as int] == Some(error@));
                        lemma_first_defect(faults, i as int);
                    }
                    return Some(error);
                }
            },
            _ => {
                assert(false);
            },
        }
        i += 1;
    }
    proof {
        lemma_no_defect(faults);
    }
    None
}

/// Puts the committed transactions into the effects.
fn confirm_effects(
    effects: &Vec<RecoverySchemaApplyEffect>,
    committed: &IdentityMap<StagedTransactionIdentity>,
) -> (confirmed: Vec<RecoverySchemaApplyEffect>)
    requires
        forall|i: int|
            0 <= i < effects@.len() ==> committed@.contains_key(
                #[trigger] identities::<RecoverySchemaApplyEffect>(views(effects@))[i],
            ),
    ensures
        views(confirmed@) == confirmed_effects(views(effects@), committed@),
{
    let ghost models = views(effects@);
    let ghost ids = identities::<RecoverySchemaApplyEffect>(models);
    let ghost expected = confirmed_effects(models, committed@);
    let mut confirmed: Vec<RecoverySchemaApplyEffect> = Vec::new();
    let mut i: usize = 0;
    while i < effects.len()
        invariant
            i <= effects.len(),
            models == views(effects@),
            ids == identities::<RecoverySchemaApplyEffect>(models),
            expected == confirmed_effects(models, committed@),
            forall|j: int| 0 <= j < effects@.len() ==> committed@.contains_key(#[trigger] ids[j]),
            confirmed.len() == i,
            forall|j: int| 0 <= j < i ==> (#[trigger] confirmed@[j])@ == expected[j],
        decreases effects.len() - i,
    {
        assert(models[i as int] == effects@[i as int]@);
        assert(ids[i as int] == effects@[i as int].identity);
        let mut effect: RecoverySchemaApplyEffect = effects[i].replicate();
        if let Some(transaction) = committed.get(effects[i].identity) {
            effect.kind.set_confirmed_transaction(transaction.replicate());
        }
        confirmed.push(effect);
        i += 1;
    }
    assert(views(confirmed@) =~= expected);
    confirmed
}

/// Binds every achieved output of a schema apply, once its effects and its staged
/// schema are durable.
pub fn confirm_schema_apply_sidecar_v9(
    root_uri: &str,
    sidecar: &RecoverySidecar,
    updates: &Vec<SubTableUpdate>,
    committed_transactions: &IdentityMap<StagedTransactionIdentity>,
) -> (result: Result<RecoverySidecar, OmniError>)
    ensures
        confirms(
            result,
            schema_confirmation(root_uri@, sidecar@, views(updates@), committed_transactions@),
        ),
{
    let uri: String = sidecar_uri(root_uri, sidecar.operation_id.as_str());
    if let Err(error) = validate_sidecar_shape(uri.as_str(), sidecar) {
        return Err(error);
    }
    let payload: &RecoveryProtocolV7 = match &sidecar.protocol_v7 {
        Some(payload) => payload,
        None => {
            return Err(
                OmniError::manifest_internal(
                    "confirm_schema_apply_sidecar_v9 requires a schema-v9 sidecar",
                ),
            );
        },
    };
    if payload.effect_phase != RecoveryEffectPhase::Armed {
        return Err(
            error_about(
                "SchemaApply",
                sidecar.operation_id.as_str(),
                "' is already EffectsConfirmed",
            ),
        );
    }
    if !do_keys_match(&payload.effects, updates, committed_transactions) {
        return Err(
            error_about(
                "SchemaApply",
                sidecar.operation_id.as_str(),
                "' confirmation key set differs from its planned effects",
            ),
        );
    }
    proof {
        lemma_sound_schema_apply(uri@, sidecar@);
    }
    if let Some(error) = check_schema_effects(sidecar, payload, updates, committed_transactions) {
        return Err(error);
    }
    let mut confirmed_payload: RecoveryProtocolV7 = payload.replicate();
    confirmed_payload.effects = confirm_effects(&payload.effects, committed_transactions);
    confirmed_payload.intended_delta.table_updates = confirm_slots(
        &payload.intended_delta.table_updates,
        updates,
    );
    confirmed_payload.effect_phase = RecoveryEffectPhase::EffectsConfirmed;
    let mut confirmed: RecoverySidecar = sidecar.replicate();
    confirmed.protocol_v7 = Some(confirmed_payload);
    confirmed.tables = confirm_pins(&sidecar.tables, updates);
    assert(confirmed@ == schema_confirmed(
        sidecar@,
        payload@,
        views(updates@),
        committed_transactions@,
    ));
    if let Err(error) = validate_sidecar_shape(uri.as_str(), &confirmed) {
        return Err(error);
    }
    Ok(confirmed)
}

} // verus!
