//! The confirmation of ensure-indices runs.

use vstd::prelude::*;

use crate::confirm::common::{
    about, confirm_pins, confirm_slots, confirmed_pins, confirmed_slots, confirms, do_keys_match,
    error_about, keys_match, update_of,
};
use crate::error::{internal, OmniError, OmniErrorModel};
use crate::history::{built_index, index_overflow, prove_ensure_indices_create_index_operation};
use crate::identity::{IdentityMap, TableIdentity};
use crate::lookup::{find_by_identity, identities, place_of, within};
use crate::process::indices::TargetRef;
use crate::publish::{SubTableUpdate, SubTableUpdateModel};
use crate::shape::defect::{first_defect, lemma_first_defect, lemma_no_defect};
use crate::shape::sound::lemma_sound_ensure_indices;
use crate::shape::validate::{shape_fault, validate_sidecar_shape};
use crate::sidecar::{
    BranchIdentifier, BranchIdentifierModel, RecoveryEffectPhase, RecoveryEnsureIndicesEffect,
    RecoveryEnsureIndicesEffectModel, RecoveryManifestDeltaModel, RecoveryProtocolV8,
    RecoveryProtocolV8Model, RecoverySidecar, RecoverySidecarModel, SidecarTablePin,
    SidecarTablePinModel, StagedTransactionIdentity, StagedTransactionIdentityModel,
};
use crate::store::{sidecar_uri, uri_of};
use crate::text::cat3;
use crate::value::{opt_view, same_opt, views, Replicate, Same};

verus! {

/// Whether an effect forks the target branch of a lifetime.
pub open spec fn forks(
    effects: Seq<RecoveryEnsureIndicesEffectModel>,
    identity: TableIdentity,
) -> bool {
    exists|i: int|
        0 <= i < effects.len() && (#[trigger] effects[i]).identity == identity
            && effects[i].source_fork_version is Some
}

/// Whether the branches that were made are exactly those that the run forks.
pub open spec fn refs_match(
    effects: Seq<RecoveryEnsureIndicesEffectModel>,
    refs: Map<TableIdentity, BranchIdentifierModel>,
) -> bool {
    forall|identity: TableIdentity|
        #[trigger] refs.contains_key(identity) <==> forks(effects, identity)
}

/// Whether an effect forks the target branch of a lifetime.
fn is_forked(effects: &Vec<RecoveryEnsureIndicesEffect>, identity: TableIdentity) -> (answer: bool)
    ensures
        answer == forks(views(effects@), identity),
{
    let ghost models = views(effects@);
    let mut i: usize = 0;
    while i < effects.len()
        invariant
            i <= effects.len(),
            models == views(effects@),
            forall|j: int|
                0 <= j < i ==> !((#[trigger] models[j]).identity == identity
                    && models[j].source_fork_version is Some),
        decreases effects.len() - i,
    {
        assert(models[i as int] == effects@[i as int]@);
        if effects[i].identity == identity && effects[i].is_first_touch() {
            return true;
        }
        i += 1;
    }
    false
}

/// Whether the branches that were made are exactly those that the run forks.
fn do_refs_match(
    effects: &Vec<RecoveryEnsureIndicesEffect>,
    refs: &IdentityMap<BranchIdentifier>,
) -> (answer: bool)
    ensures
        answer == refs_match(views(effects@), refs@),
{
    let ghost models = views(effects@);
    let keys: Vec<TableIdentity> = refs.keys();
    let mut k: usize = 0;
    while k < keys.len()
        invariant
            k <= keys.len(),
            models == views(effects@),
            forall|identity: TableIdentity|
                #[trigger] keys@.contains(identity) <==> refs@.contains_key(identity),
            forall|j: int| 0 <= j < k ==> forks(models, #[trigger] keys@[j]),
        decreases keys.len() - k,
    {
        if !is_forked(effects, keys[k]) {
            proof {
                assert(keys@.contains(keys@[k as int]));
                assert(refs@.contains_key(keys@[k as int]));
            }
            return false;
        }
        k += 1;
    }
    let mut i: usize = 0;
    while i < effects.len()
        invariant
            i <= effects.len(),
            models == views(effects@),
            forall|j: int|
                0 <= j < i && (#[trigger] models[j]).source_fork_version is Some
                    ==> refs@.contains_key(models[j].identity),
        decreases effects.len() - i,
    {
        assert(models[i as int] == effects@[i as int]@);
        if effects[i].is_first_touch() && refs.get(effects[i].identity).is_none() {
            proof {
                assert(forks(models, models[i as int].identity));
                assert(!refs@.contains_key(models[i as int].identity));
            }
            return false;
        }
        i += 1;
    }
    proof {
        assert forall|identity: TableIdentity|
            #[trigger] refs@.contains_key(identity) <==> forks(models, identity) by {
            if refs@.contains_key(identity) {
                assert(keys@.contains(identity));
            }
        }
    }
    true
}

/// A text about one table of an ensure-indices run.
pub open spec fn index_table_error(
    operation_id: Seq<char>,
    alias: Seq<char>,
    reason: Seq<char>,
) -> OmniErrorModel {
    about("EnsureIndices"@, operation_id, "' table '"@ + alias + reason)
}

/// An error about one table of an ensure-indices run.
fn error_about_table(operation_id: &str, alias: &str, reason: &str) -> (error: OmniError)
    ensures
        error@ == index_table_error(operation_id@, alias@, reason@),
{
    let rest: String = cat3("' table '", alias, reason);
    error_about("EnsureIndices", operation_id, rest.as_str())
}

/// Why an effect is not as it was planned, if so.
pub open spec fn index_effect_fault(
    operation_id: Seq<char>,
    pin: SidecarTablePinModel,
    effect: RecoveryEnsureIndicesEffectModel,
    update: SubTableUpdateModel,
    committed: StagedTransactionIdentityModel,
    refs: Map<TableIdentity, BranchIdentifierModel>,
    target: Option<TargetRef>,
) -> Option<OmniErrorModel> {
    let alias = effect.table_key;
    if pin.table_key != alias || update.table_key != alias || committed
        != effect.planned_transaction || update.table_version != pin.post_commit_pin
        || update.table_branch != pin.table_branch {
        Some(
            index_table_error(
                operation_id,
                alias,
                "' achieved transaction/version/branch outside its exact plan; leaving recovery Armed"@,
            ),
        )
    } else {
        match target {
            None => Some(
                about(
                    "EnsureIndices"@,
                    operation_id,
                    "' cannot confirm missing target ref for table '"@ + alias + "'"@,
                ),
            ),
            Some(found) => if found.head.version == update.table_version
                && effect.planned_transaction.read_version == u64::MAX {
                Some(index_overflow())
            } else if found.head.version != update.table_version || !built_index(
                found.head.history,
                found.head.version,
                effect.planned_transaction,
            ) {
                Some(
                    index_table_error(
                        operation_id,
                        alias,
                        "' does not have its exact CreateIndex operation at the achieved HEAD; leaving recovery Armed"@,
                    ),
                )
            } else if effect.source_fork_version is Some && (found.parent_version
                != effect.source_fork_version || found.branch_identifier@
                != refs[effect.identity]) {
                Some(
                    index_table_error(
                        operation_id,
                        alias,
                        "' target ref differs from its exact first-touch result; leaving recovery Armed"@,
                    ),
                )
            } else {
                None
            },
        }
    }
}

/// Why the effects of an ensure-indices run are not as they were planned.
/// `targets` holds what was found of their target branches.
pub open spec fn index_effect_faults(
    operation_id: Seq<char>,
    pins: Seq<SidecarTablePinModel>,
    effects: Seq<RecoveryEnsureIndicesEffectModel>,
    updates: Seq<SubTableUpdateModel>,
    committed: Map<TableIdentity, StagedTransactionIdentityModel>,
    refs: Map<TableIdentity, BranchIdentifierModel>,
    targets: Seq<Option<TargetRef>>,
) -> Seq<Option<OmniErrorModel>> {
    Seq::new(
        effects.len(),
        |i: int|
            index_effect_fault(
                operation_id,
                find_by_identity::<SidecarTablePin>(pins, effects[i].identity)->0,
                effects[i],
                update_of(updates, effects[i].identity)->0,
                committed[effects[i].identity],
                refs,
                targets[i],
            ),
    )
}

/// The effects with the transactions that were committed and the branches that
/// were made.
pub open spec fn confirmed_effects(
    effects: Seq<RecoveryEnsureIndicesEffectModel>,
    committed: Map<TableIdentity, StagedTransactionIdentityModel>,
    refs: Map<TableIdentity, BranchIdentifierModel>,
) -> Seq<RecoveryEnsureIndicesEffectModel> {
    Seq::new(
        effects.len(),
        |i: int|
            RecoveryEnsureIndicesEffectModel {
                confirmed_transaction: Some(committed[effects[i].identity]),
                confirmed_branch_identifier: if refs.contains_key(effects[i].identity) {
                    Some(refs[effects[i].identity])
                } else {
                    None
                },
                ..effects[i]
            },
    )
}

/// The sidecar of an ensure-indices run with everything that was achieved.
pub open spec fn index_confirmed(
    sidecar: RecoverySidecarModel,
    payload: RecoveryProtocolV8Model,
    updates: Seq<SubTableUpdateModel>,
    committed: Map<TableIdentity, StagedTransactionIdentityModel>,
    refs: Map<TableIdentity, BranchIdentifierModel>,
) -> RecoverySidecarModel {
    RecoverySidecarModel {
        tables: confirmed_pins(sidecar.tables, updates),
        protocol_v8: Some(
            RecoveryProtocolV8Model {
                effect_phase: RecoveryEffectPhase::EffectsConfirmed,
                effects: confirmed_effects(payload.effects, committed, refs),
                intended_delta: RecoveryManifestDeltaModel {
                    table_updates: confirmed_slots(
                        payload.intended_delta.table_updates,
                        updates,
                    ),
                    ..payload.intended_delta
                },
                ..payload
            },
        ),
        ..sidecar
    }
}

/// The confirmed sidecar of an ensure-indices run, or why it stays armed.
pub open spec fn index_confirmation(
    root: Seq<char>,
    sidecar: RecoverySidecarModel,
    updates: Seq<SubTableUpdateModel>,
    committed: Map<TableIdentity, StagedTransactionIdentityModel>,
    refs: Map<TableIdentity, BranchIdentifierModel>,
    targets: Seq<Option<TargetRef>>,
) -> Result<RecoverySidecarModel, OmniErrorModel> {
    let uri = uri_of(root, sidecar.operation_id);
    if shape_fault(uri, sidecar) is Some {
        Err(shape_fault(uri, sidecar)->0)
    } else {
        match sidecar.protocol_v8 {
            None => Err(
                internal(
                    "confirm_ensure_indices_sidecar_v9 requires a schema-v9 EnsureIndices sidecar"@,
                ),
            ),
            Some(payload) => {
                let faults = index_effect_faults(
                    sidecar.operation_id,
                    sidecar.tables,
                    payload.effects,
                    updates,
                    committed,
                    refs,
                    targets,
                );
                let confirmed = index_confirmed(sidecar, payload, updates, committed, refs);
                if payload.effect_phase != RecoveryEffectPhase::Armed {
                    Err(
                        about(
                            "EnsureIndices"@,
                            sidecar.operation_id,
                            "' is already EffectsConfirmed"@,
                        ),
                    )
                } else if !keys_match(
                    identities::<RecoveryEnsureIndicesEffect>(payload.effects),
                    updates,
                    committed,
                ) || !refs_match(payload.effects, refs) {
                    Err(
                        about(
                            "EnsureIndices"@,
                            sidecar.operation_id,
                            "' confirmation key set differs from its exact plan"@,
                        ),
                    )
                } else if first_defect(faults) is Some {
                    Err(first_defect(faults)->0)
                } else if shape_fault(uri, confirmed) is Some {
                    Err(shape_fault(uri, confirmed)->0)
                } else {
                    Ok(confirmed)
                }
            },
        }
    }
}

/// Checks one effect of an ensure-indices run.
fn check_index_effect(
    operation_id: &str,
    pin: &SidecarTablePin,
    effect: &RecoveryEnsureIndicesEffect,
    update: &SubTableUpdate,
    committed: &StagedTransactionIdentity,
    refs: &IdentityMap<BranchIdentifier>,
    target: &Option<TargetRef>,
) -> (fault: Option<OmniError>)
    requires
        effect.source_fork_version is Some ==> refs@.contains_key(effect.identity),
    ensures
        opt_view(fault) == index_effect_fault(
            operation_id@,
            pin@,
            effect@,
            update@,
            committed@,
            refs@,
            *target,
        ),
{
    let alias: &str = effect.table_key.as_str();
    if pin.table_key != effect.table_key || update.table_key != effect.table_key
        || !committed.same(&effect.planned_transaction) || update.table_version
        != pin.post_commit_pin || !same_opt(&update.table_branch, &pin.table_branch) {
        return Some(
            error_about_table(
                operation_id,
                alias,
                "' achieved transaction/version/branch outside its exact plan; leaving recovery Armed",
            ),
        );
    }
    let found: &TargetRef = match target {
        Some(found) => found,
        None => {
            let rest: String = cat3(
                "' cannot confirm missing target ref for table '",
                alias,
                "'",
            );
            return Some(error_about("EnsureIndices", operation_id, rest.as_str()));
        },
    };
    let built: bool = if found.head.version == update.table_version {
        match prove_ensure_indices_create_index_operation(
            &found.head.history,
            found.head.version,
            &effect.planned_transaction,
        ) {
            Ok(built) => built,
            Err(error) => {
                return Some(error);
            },
        }
    } else {
        false
    };
    if !built {
        return Some(
            error_about_table(
                operation_id,
                alias,
                "' does not have its exact CreateIndex operation at the achieved HEAD; leaving recovery Armed",
            ),
        );
    }
    if effect.is_first_touch() {
        let same_ref: bool = match refs.get(effect.identity) {
            Some(expected) => found.branch_identifier.same(expected),
            None => {
                assert(false);
                false
            },
        };
        if found.parent_version != effect.source_fork_version || !same_ref {
            return Some(
                error_about_table(
                    operation_id,
                    alias,
                    "' target ref differs from its exact first-touch result; leaving recovery Armed",
                ),
            );
        }
    }
    None
}

/// Checks that every effect of an ensure-indices run is as it was planned.
fn check_index_effects(
    sidecar: &RecoverySidecar,
    payload: &RecoveryProtocolV8,
    updates: &Vec<SubTableUpdate>,
    committed: &IdentityMap<StagedTransactionIdentity>,
    refs: &IdentityMap<BranchIdentifier>,
    targets: &Vec<Option<TargetRef>>,
) -> (fault: Option<OmniError>)
    requires
        targets.len() == payload.effects.len(),
        within(
            identities::<RecoveryEnsureIndicesEffect>(payload@.effects),
            identities::<SidecarTablePin>(sidecar@.tables),
        ),
        keys_match(
            identities::<RecoveryEnsureIndicesEffect>(payload@.effects),
            views(updates@),
            committed@,
        ),
        refs_match(payload@.effects, refs@),
    ensures
        opt_view(fault) == first_defect(
            index_effect_faults(
                sidecar@.operation_id,
                sidecar@.tables,
                payload@.effects,
                views(updates@),
                committed@,
                refs@,
                targets@,
            ),
        ),
{
    let effects: &Vec<RecoveryEnsureIndicesEffect> = &payload.effects;
    let ghost models = payload@.effects;
    let ghost ids = identities::<RecoveryEnsureIndicesEffect>(models);
    let ghost faults = index_effect_faults(
        sidecar@.operation_id,
        sidecar@.tables,
        models,
        views(updates@),
        committed@,
        refs@,
        targets@,
    );
    let mut i: usize = 0;
    while i < effects.len()
        invariant
            i <= effects.len(),
            *effects == payload.effects,
            models == views(effects@),
            targets.len() == effects.len(),
            ids == identities::<RecoveryEnsureIndicesEffect>(models),
            within(ids, identities::<SidecarTablePin>(sidecar@.tables)),
            keys_match(ids, views(updates@), committed@),
            refs_match(models, refs@),
            faults == index_effect_faults(
                sidecar@.operation_id,
                sidecar@.tables,
                models,
                views(updates@),
                committed@,
                refs@,
                targets@,
            ),
            forall|j: int| 0 <= j < i ==> faults[j] is None,
        decreases effects.len() - i,
    {
        let effect: &RecoveryEnsureIndicesEffect = &effects[i];
        assert(models[i as int] == effect@);
        assert(ids[i as int] == effect.identity);
        assert(effect.source_fork_version is Some ==> forks(models, effect.identity));
        assert(effect.source_fork_version is Some ==> refs@.contains_key(effect.identity));
        match (
            place_of(&sidecar.tables, effect.identity),
            place_of(updates, effect.identity),
            committed.get(effect.identity),
        ) {
            (Some(p), Some(u), Some(transaction)) => {
                let fault: Option<OmniError> = check_index_effect(
                    sidecar.operation_id.as_str(),
                    &sidecar.tables[p],
                    effect,
                    &updates[u],
                    transaction,
                    refs,
                    &targets[i],
                );
                assert(faults[i as int] == opt_view(fault));
                if fault.is_some() {
                    proof {
                        lemma_first_defect(faults, i as int);
                    }
                    return fault;
                }
            },
            _ => {
                assert(false);
            },
        }
        i += 1;
    }
    proof {
        lemma_no_defect(faults);
    }
    None
}

/// Puts the committed transactions and the branches that were made into the
/// effects.
fn confirm_effects(
    effects: &Vec<RecoveryEnsureIndicesEffect>,
    committed: &IdentityMap<StagedTransactionIdentity>,
    refs: &IdentityMap<BranchIdentifier>,
) -> (confirmed: Vec<RecoveryEnsureIndicesEffect>)
    requires
        forall|i: int|
            0 <= i < effects@.len() ==> committed@.contains_key(
                #[trigger] identities::<RecoveryEnsureIndicesEffect>(views(effects@))[i],
            ),
    ensures
        views(confirmed@) == confirmed_effects(views(effects@), committed@, refs@),
{
    let ghost models = views(effects@);
    let ghost ids = identities::<RecoveryEnsureIndicesEffect>(models);
    let ghost expected = confirmed_effects(models, committed@, refs@);
    let mut confirmed: Vec<RecoveryEnsureIndicesEffect> = Vec::new();
    let mut i: usize = 0;
    while i < effects.len()
        invariant
            i <= effects.len(),
            models == views(effects@),
            ids == identities::<RecoveryEnsureIndicesEffect>(models),
            expected == confirmed_effects(models, committed@, refs@),
            forall|j: int| 0 <= j < effects@.len() ==> committed@.contains_key(#[trigger] ids[j]),
            confirmed.len() == i,
            forall|j: int| 0 <= j < i ==> (#[trigger] confirmed@[j])@ == expected[j],
        decreases effects.len() - i,
    {
        assert(models[i as int] == effects@[i as int]@);
        assert(ids[i as int] == effects@[i as int].identity);
        let mut effect: RecoveryEnsureIndicesEffect = effects[i].replicate();
        if let Some(transaction) = committed.get(effects[i].identity) {
            effect.confirmed_transaction = Some(transaction.replicate());
        }
        effect.confirmed_branch_identifier = match refs.get(effects[i].identity) {
            Some(identifier) => Some(identifier.replicate()),
            None => None,
        };
        confirmed.push(effect);
        i += 1;
    }
    assert(views(confirmed@) =~= expected);
    confirmed
}

/// Binds every achieved output of an ensure-indices run. `targets` holds, for every
/// effect, what was found of its target branch: the achieved head has to be the
/// planned index build.
pub fn confirm_ensure_indices_sidecar_v9(
    root_uri: &str,
    sidecar: &RecoverySidecar,
    updates: &Vec<SubTableUpdate>,
    committed_transactions: &IdentityMap<StagedTransactionIdentity>,
    confirmed_ref_identifiers: &IdentityMap<BranchIdentifier>,
    targets: &Vec<Option<TargetRef>>,
) -> (result: Result<RecoverySidecar, OmniError>)
    requires
        sidecar.protocol_v8 is Some ==> targets.len() == (sidecar.protocol_v8->0).effects.len(),
    ensures
        confirms(
            result,
            index_confirmation(
                root_uri@,
                sidecar@,
                views(updates@),
                committed_transactions@,
                confirmed_ref_identifiers@,
                targets@,
            ),
        ),
{
    let uri: String = sidecar_uri(root_uri, sidecar.operation_id.as_str());
    if let Err(error) = validate_sidecar_shape(uri.as_str(), sidecar) {
        return Err(error);
    }
    let payload: &RecoveryProtocolV8 = match &sidecar.protocol_v8 {
        Some(payload) => payload,
        None => {
            return Err(
                OmniError::manifest_internal(
                    "confirm_ensure_indices_sidecar_v9 requires a schema-v9 EnsureIndices sidecar",
                ),
            );
        },
    };
    if payload.effect_phase != RecoveryEffectPhase::Armed {
        return Err(
            error_about(
                "EnsureIndices",
                sidecar.operation_id.as_str(),
                "' is already EffectsConfirmed",
            ),
        );
    }
    if !do_keys_match(&payload.effects, updates, committed_transactions) || !do_refs_match(
        &payload.effects,
        confirmed_ref_identifiers,
    ) {
        return Err(
            error_about(
                "EnsureIndices",
                sidecar.operation_id.as_str(),
                "' confirmation key set differs from its exact plan",
            ),
        );
    }
    proof {
        lemma_sound_ensure_indices(uri@, sidecar@);
    }
    if let Some(error) = check_index_effects(
        sidecar,
        payload,
        updates,
        committed_transactions,
        confirmed_ref_identifiers,
        targets,
    ) {
        return Err(error);
    }
    let mut confirmed_payload: RecoveryProtocolV8 = payload.replicate();
    confirmed_payload.effects = confirm_effects(
        &payload.effects,
        committed_transactions,
        confirmed_ref_identifiers,
    );
    confirmed_payload.intended_delta.table_updates = confirm_slots(
        &payload.intended_delta.table_updates,
        updates,
    );
    confirmed_payload.effect_phase = RecoveryEffectPhase::EffectsConfirmed;
    let mut confirmed: RecoverySidecar = sidecar.replicate();
    confirmed.protocol_v8 = Some(confirmed_payload);
    confirmed.tables = confirm_pins(&sidecar.tables, updates);
    assert(confirmed@ == index_confirmed(
        sidecar@,
        payload@,
        views(updates@),
        committed_transactions@,
        confirmed_ref_identifiers@,
    ));
    if let Err(error) = validate_sidecar_shape(uri.as_str(), &confirmed) {
        return Err(error);
    }
    Ok(confirmed)
}

} // verus!
