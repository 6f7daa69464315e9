//! The exact recovery of a schema apply.

use vstd::prelude::*;

use crate::classify::{observed_head, pinned_version, ClassifiedTable, TableClassification};
use crate::error::{internal, OmniError, OmniErrorModel};
use crate::history::{
    observe_head, EffectOwnership, HeadReading, LanceHeadObservation, LanceHeadObservationModel,
    PlannedEffect,
};
use crate::lookup::{find_by_identity, identities, place_of, within};
use crate::process::forks::{contested, is_contested};
use crate::process::step::{
    refuse, refuse_step, roll_back, roll_back_step, summarize, summary, RecoveryStep,
    RecoveryStepModel, Summary,
};
use crate::rollback::{is_owned, owned, restoration, restoration_of, Restoration, RestorationModel};
use crate::shape::defect::{first_defect, lemma_first_defect, lemma_no_defect};
use crate::shape::schema_apply::{restored_alias, schema_apply_rollback_table_key};
use crate::sidecar::{
    RecoveryAuthorityToken, RecoveryAuthorityTokenModel, RecoveryEffectPhase, RecoveryMode,
    RecoveryProtocolV7, RecoveryProtocolV7Model, RecoverySchemaApplyEffect,
    RecoverySchemaApplyEffectModel, RecoverySidecar, RecoverySidecarModel, RecoveryTableUpdateSlot,
    SidecarTablePin, SidecarTablePinModel,
};
use crate::snapshot::{
    bound_entry, snapshot_entry_by_identity, snapshot_entry_for_schema_pin, Snapshot, SnapshotEntry,
    SnapshotEntryModel, SnapshotModel,
};
use crate::text::{cat3, cat4, cat5, decimal, decimal_text};
use crate::value::{opt_view, views, Same};

verus! {

/// The effect of a pinned table.
pub open spec fn schema_effect(
    payload: RecoveryProtocolV7Model,
    pin: SidecarTablePinModel,
) -> RecoverySchemaApplyEffectModel {
    find_by_identity::<RecoverySchemaApplyEffect>(payload.effects, pin.identity)->0
}

/// The live table of a pin, under its alias before the apply.
pub open spec fn schema_binding(
    snapshot: SnapshotModel,
    payload: RecoveryProtocolV7Model,
    pin: SidecarTablePinModel,
) -> Result<Option<SnapshotEntryModel>, OmniErrorModel> {
    bound_entry(snapshot, pin.identity, restored_alias(payload.intended_delta.renames, pin))
}

/// The head of a table: one that is not there has version zero.
pub open spec fn schema_head(
    pin: SidecarTablePinModel,
    effect: RecoverySchemaApplyEffectModel,
    pinned: u64,
    reading: Option<HeadReading>,
) -> LanceHeadObservationModel {
    observed_head(reading, Some((pin.post_commit_pin, effect.kind.planned().uuid, pinned)), 0)
}

/// Whether the manifest delta confirms a version of a table.
pub open spec fn schema_delta_confirms(
    payload: RecoveryProtocolV7Model,
    pin: SidecarTablePinModel,
    version: u64,
) -> bool {
    match find_by_identity::<RecoveryTableUpdateSlot>(
        payload.intended_delta.table_updates,
        pin.identity,
    ) {
        Some(slot) => slot.confirmed is Some && slot.confirmed->0.table_version == version,
        None => false,
    }
}

/// The class of a table of a schema apply.
pub open spec fn schema_class(
    payload: RecoveryProtocolV7Model,
    pin: SidecarTablePinModel,
    effect: RecoverySchemaApplyEffectModel,
    pinned: u64,
    head: LanceHeadObservationModel,
) -> TableClassification {
    let confirmed = effect.kind.confirmed();
    if head.version < pinned {
        TableClassification::InvariantViolation { observed: head.version }
    } else if head.version == pinned {
        if head.effect_ownership == EffectOwnership::Absent {
            TableClassification::NoMovement
        } else {
            TableClassification::UnexpectedEffectIdentity
        }
    } else if payload.effect_phase == RecoveryEffectPhase::EffectsConfirmed
        && head.effect_ownership == EffectOwnership::OwnAtHead && confirmed == Some(
        effect.kind.planned(),
    ) && head.transaction == confirmed && pin.confirmed_version == Some(head.version)
        && schema_delta_confirms(payload, pin, head.version) && pinned == pin.expected_version {
        TableClassification::RolledPastExpected
    } else if payload.effect_phase == RecoveryEffectPhase::Armed && owned(head.effect_ownership) {
        TableClassification::IncompletePhaseB
    } else {
        TableClassification::UnexpectedEffectIdentity
    }
}

/// A table of a schema apply that the manifest selects as `entry`.
pub open spec fn schema_state(
    payload: RecoveryProtocolV7Model,
    pin: SidecarTablePinModel,
    effect: RecoverySchemaApplyEffectModel,
    entry: Option<SnapshotEntryModel>,
    reading: Option<HeadReading>,
) -> ClassifiedTable {
    let pinned = pinned_version(entry);
    let head = schema_head(pin, effect, pinned, reading);
    ClassifiedTable {
        classification: schema_class(payload, pin, effect, pinned, head),
        manifest_pinned: pinned,
        lance_head: head.version,
        effect_ownership: head.effect_ownership,
        unpublished_fork: effect.kind is FirstTouchDataset && entry is None,
    }
}

/// The pins that are not bound as they have to be before the apply.
pub open spec fn schema_binding_faults(
    snapshot: SnapshotModel,
    pins: Seq<SidecarTablePinModel>,
    payload: RecoveryProtocolV7Model,
) -> Seq<Option<OmniErrorModel>> {
    Seq::new(
        pins.len(),
        |i: int|
            match schema_binding(snapshot, payload, pins[i]) {
                Ok(_) => None,
                Err(error) => Some(error),
            },
    )
}

/// The tables of a schema apply.
pub open spec fn schema_states(
    snapshot: SnapshotModel,
    pins: Seq<SidecarTablePinModel>,
    payload: RecoveryProtocolV7Model,
    readings: Seq<Option<HeadReading>>,
) -> Seq<ClassifiedTable> {
    Seq::new(
        pins.len(),
        |i: int|
            schema_state(
                payload,
                pins[i],
                schema_effect(payload, pins[i]),
                schema_binding(snapshot, payload, pins[i])->Ok_0,
                readings[i],
            ),
    )
}

/// Whether the manifest delta confirms a version of a table.
fn is_confirmed_by_delta(payload: &RecoveryProtocolV7, pin: &SidecarTablePin, version: u64) -> (answer:
    bool)
    ensures
        answer == schema_delta_confirms(payload@, pin@, version),
{
    match place_of(&payload.intended_delta.table_updates, pin.identity) {
        Some(i) => match &payload.intended_delta.table_updates[i].confirmed {
            Some(confirmed) => confirmed.table_version == version,
            None => false,
        },
        None => false,
    }
}

/// Classifies a table of a schema apply.
fn classify_schema_table(
    payload: &RecoveryProtocolV7,
    pin: &SidecarTablePin,
    effect: &RecoverySchemaApplyEffect,
    pinned: u64,
    head: &LanceHeadObservation,
) -> (class: TableClassification)
    ensures
        class == schema_class(payload@, pin@, effect@, pinned, head@),
{
    if head.version < pinned {
        return TableClassification::InvariantViolation { observed: head.version };
    }
    if head.version == pinned {
        return if head.effect_ownership == EffectOwnership::Absent {
            TableClassification::NoMovement
        } else {
            TableClassification::UnexpectedEffectIdentity
        };
    }
    let landed: bool = match (effect.kind.confirmed_transaction(), &head.transaction) {
        (Some(confirmed), Some(found)) => confirmed.same(effect.kind.planned_transaction())
            && found.same(confirmed),
        _ => false,
    };
    if payload.effect_phase == RecoveryEffectPhase::EffectsConfirmed && head.effect_ownership
        == EffectOwnership::OwnAtHead && landed && pin.confirmed_version == Some(head.version)
        && is_confirmed_by_delta(payload, pin, head.version) && pinned == pin.expected_version {
        return TableClassification::RolledPastExpected;
    }
    if payload.effect_phase == RecoveryEffectPhase::Armed && is_owned(head.effect_ownership) {
        TableClassification::IncompletePhaseB
    } else {
        TableClassification::UnexpectedEffectIdentity
    }
}

/// Classifies the tables of a schema apply from what was read at their heads.
pub fn observe_schema_tables(
    snapshot: &Snapshot,
    sidecar: &RecoverySidecar,
    payload: &RecoveryProtocolV7,
    readings: &Vec<Option<HeadReading>>,
) -> (result: Result<Vec<ClassifiedTable>, OmniError>)
    requires
        readings.len() == sidecar.tables.len(),
        within(
            identities::<SidecarTablePin>(sidecar@.tables),
            identities::<RecoverySchemaApplyEffect>(payload@.effects),
        ),
    ensures
        match first_defect(schema_binding_faults(snapshot@, sidecar@.tables, payload@)) {
            Some(error) => result is Err && result->Err_0@ == error,
            None => result is Ok && result->Ok_0@ == schema_states(
                snapshot@,
                sidecar@.tables,
                payload@,
                readings@,
            ),
        },
{
    let pins: &Vec<SidecarTablePin> = &sidecar.tables;
    let ghost models = sidecar@.tables;
    let ghost faults = schema_binding_faults(snapshot@, models, payload@);
    let ghost expected = schema_states(snapshot@, models, payload@, readings@);
    let mut states: Vec<ClassifiedTable> = Vec::new();
    let mut i: usize = 0;
    while i < pins.len()
        invariant
            i <= pins.len(),
            *pins == sidecar.tables,
            models == sidecar@.tables,
            models == views(pins@),
            readings.len() == pins.len(),
            within(
                identities::<SidecarTablePin>(models),
                identities::<RecoverySchemaApplyEffect>(payload@.effects),
            ),
            faults == schema_binding_faults(snapshot@, models, payload@),
            expected == schema_states(snapshot@, models, payload@, readings@),
            forall|j: int| 0 <= j < i ==> faults[j] is None,
            states@ == expected.subrange(0, i as int),
        decreases pins.len() - i,
    {
        let pin: &SidecarTablePin = &pins[i];
        let ghost n = i as int;
        assert(models[n] == pin@);
        assert(identities::<SidecarTablePin>(models)[n] == pin.identity);
        let at: usize = match place_of(&payload.effects, pin.identity) {
            Some(at) => at,
            None => {
                assert(false);
                0
            },
        };
        let effect: &RecoverySchemaApplyEffect = &payload.effects[at];
        assert(schema_effect(payload@, pin@) == effect@);
        assert(faults[n] == match schema_binding(snapshot@, payload@, pin@) {
            Ok(_) => None,
            Err(error) => Some(error),
        });
        let entry: Option<&SnapshotEntry> = match snapshot_entry_for_schema_pin(
            snapshot,
            pin,
            payload,
        ) {
            Ok(entry) => entry,
            Err(error) => {
                proof {
                    lemma_first_defect(faults, n);
                }
                return Err(error);
            },
        };
        let pinned: u64 = match entry {
            Some(found) => found.table.table_version,
            None => 0,
        };
        let head: LanceHeadObservation = match &readings[i] {
            Some(found) => {
                let planned: Option<PlannedEffect> = Some(
                    PlannedEffect {
                        first_possible_version: pin.post_commit_pin,
                        uuid: effect.kind.planned_transaction().uuid.clone(),
                        compensation_target: pinned,
                    },
                );
                observe_head(found, &planned)
            },
            None => LanceHeadObservation {
                version: 0,
                transaction: None,
                effect_ownership: EffectOwnership::Absent,
            },
        };
        let state: ClassifiedTable = ClassifiedTable {
            classification: classify_schema_table(payload, pin, effect, pinned, &head),
            manifest_pinned: pinned,
            lance_head: head.version,
            effect_ownership: head.effect_ownership,
            unpublished_fork: effect.kind.is_first_touch() && entry.is_none(),
        };
        assert(expected[n] == state);
        states.push(state);
        assert(states@ =~= expected.subrange(0, n + 1));
        i += 1;
    }
    proof {
        lemma_no_defect(faults);
        assert(expected.subrange(0, expected.len() as int) =~= expected);
    }
    Ok(states)
}

/// The next step of a schema apply, from what its tables show.
pub open spec fn schema_step(
    sidecar: RecoverySidecarModel,
    payload: RecoveryProtocolV7Model,
    facts: Summary,
    live: Option<RecoveryAuthorityTokenModel>,
    mode: RecoveryMode,
) -> RecoveryStepModel {
    if facts.unverifiable || facts.own_effect_buried || facts.owned_table_drift
        || facts.ambiguous_advance {
        refuse(
            mode,
            "SchemaApply recovery sidecar '"@ + sidecar.operation_id
                + "' is interleaved with unverifiable or foreign table movement; refusing destructive recovery"@,
        )
    } else {
        match live {
            None => RecoveryStepModel::ReadLiveAuthority,
            Some(authority) => if payload.rollback_audit_outcomes is Some || payload.effect_phase
                == RecoveryEffectPhase::Armed || authority != payload.authority
                || !facts.all_reached {
                roll_back(mode)
            } else {
                RecoveryStepModel::RollForward
            },
        }
    }
}

/// Decides the next step of a schema apply, once no fixed outcome of it is visible.
/// `live` is the live authority of the main branch, once read.
pub fn process_schema_apply_sidecar_v7(
    sidecar: &RecoverySidecar,
    payload: &RecoveryProtocolV7,
    states: &Vec<ClassifiedTable>,
    live: &Option<RecoveryAuthorityToken>,
    mode: RecoveryMode,
) -> (step: RecoveryStep)
    requires
        states.len() == sidecar.tables.len(),
    ensures
        step@ == schema_step(
            sidecar@,
            payload@,
            summary(sidecar@.tables, states@),
            opt_view(*live),
            mode,
        ),
{
    let facts: Summary = summarize(&sidecar.tables, states);
    if facts.unverifiable || facts.own_effect_buried || facts.owned_table_drift
        || facts.ambiguous_advance {
        let message: String = cat3(
            "SchemaApply recovery sidecar '",
            sidecar.operation_id.as_str(),
            "' is interleaved with unverifiable or foreign table movement; refusing destructive recovery",
        );
        return refuse_step(mode, message.as_str());
    }
    let authority: &RecoveryAuthorityToken = match live {
        Some(authority) => authority,
        None => {
            return RecoveryStep::ReadLiveAuthority;
        },
    };
    if payload.rollback_audit_outcomes.is_some() || payload.effect_phase
        == RecoveryEffectPhase::Armed || !authority.same(&payload.authority)
        || !facts.all_reached {
        return roll_back_step(mode);
    }
    RecoveryStep::RollForward
}

/// A message about a schema-apply sidecar.
pub open spec fn schema_message(operation_id: Seq<char>, rest: Seq<char>) -> Seq<char> {
    "SchemaApply sidecar '"@ + operation_id + "' "@ + rest
}

/// An error about a schema-apply sidecar.
fn schema_error(operation_id: &str, rest: &str) -> (error: OmniError)
    ensures
        error@ == internal(schema_message(operation_id@, rest@)),
{
    let message: String = cat4("SchemaApply sidecar '", operation_id, "' ", rest);
    OmniError::manifest_internal(message.as_str())
}

/// Whether a rollback deletes the directory of a table, or why it may not. A table
/// that the apply creates has no earlier version to go back to: it is deleted
/// where it is exactly what the apply made, or nothing yet. What somebody else
/// created there is left alone.
pub open spec fn deletion(
    snapshot: SnapshotModel,
    sidecar: RecoverySidecarModel,
    pin: SidecarTablePinModel,
    state: ClassifiedTable,
    effect: RecoverySchemaApplyEffectModel,
    pending: Seq<RecoverySidecarModel>,
) -> Result<bool, OmniErrorModel> {
    let id = sidecar.operation_id;
    if !(effect.kind is FirstTouchDataset) {
        Ok(false)
    } else if snapshot.by_identity(pin.identity) is Some {
        Err(
            internal(
                schema_message(
                    id,
                    "cannot delete first-touch dataset '"@ + pin.table_key
                        + "' because the manifest now registers it without the fixed original lineage"@,
                ),
            ),
        )
    } else if contested(pending, id, pin.table_path, None) {
        Err(
            internal(
                schema_message(
                    id,
                    "cannot delete first-touch path '"@ + pin.table_path
                        + "' while another recovery intent claims it"@,
                ),
            ),
        )
    } else {
        match state.effect_ownership {
            EffectOwnership::OwnAtHead => if state.lance_head != 1 {
                Err(
                    internal(
                        schema_message(
                            id,
                            "owns first-touch '"@ + pin.table_key + "' at version "@ + decimal(
                                state.lance_head as nat,
                            ) + ", expected exact version one"@,
                        ),
                    ),
                )
            } else {
                Ok(true)
            },
            EffectOwnership::Absent => Ok(state.lance_head == 0),
            EffectOwnership::OwnCompensatedAtHead => Err(
                internal(
                    "SchemaApply first-touch '"@ + pin.table_key
                        + "' has an impossible restore compensation"@,
                ),
            ),
            EffectOwnership::OwnBeforeHead | EffectOwnership::Unverifiable => Err(
                internal(
                    schema_message(
                        id,
                        "cannot safely delete first-touch '"@ + pin.table_key
                            + "': its exact effect is buried or unverifiable"@,
                    ),
                ),
            ),
        }
    }
}

/// Whether a rollback of a schema apply deletes the directory of a table.
pub fn deletes_first_touch(
    snapshot: &Snapshot,
    sidecar: &RecoverySidecar,
    pin: &SidecarTablePin,
    state: &ClassifiedTable,
    effect: &RecoverySchemaApplyEffect,
    pending: &Vec<RecoverySidecar>,
) -> (result: Result<bool, OmniError>)
    ensures
        match deletion(snapshot@, sidecar@, pin@, *state, effect@, views(pending@)) {
            Ok(answer) => result == Ok::<bool, OmniError>(answer),
            Err(error) => result is Err && result->Err_0@ == error,
        },
{
    let id: &str = sidecar.operation_id.as_str();
    if !effect.kind.is_first_touch() {
        return Ok(false);
    }
    if snapshot_entry_by_identity(snapshot, pin.identity).is_some() {
        let rest: String = cat3(
            "cannot delete first-touch dataset '",
            pin.table_key.as_str(),
            "' because the manifest now registers it without the fixed original lineage",
        );
        return Err(schema_error(id, rest.as_str()));
    }
    if is_contested(pending, &sidecar.operation_id, &pin.table_path, None) {
        let rest: String = cat3(
            "cannot delete first-touch path '",
            pin.table_path.as_str(),
            "' while another recovery intent claims it",
        );
        return Err(schema_error(id, rest.as_str()));
    }
    match state.effect_ownership {
        EffectOwnership::OwnAtHead => {
            if state.lance_head != 1 {
                let head: String = decimal_text(state.lance_head);
                let rest: String = cat5(
                    "owns first-touch '",
                    pin.table_key.as_str(),
                    "' at version ",
                    head.as_str(),
                    ", expected exact version one",
                );
                return Err(schema_error(id, rest.as_str()));
            }
            Ok(true)
        },
        EffectOwnership::Absent => Ok(state.lance_head == 0),
        EffectOwnership::OwnCompensatedAtHead => {
            let message: String = cat3(
                "SchemaApply first-touch '",
                pin.table_key.as_str(),
                "' has an impossible restore compensation",
            );
            Err(OmniError::manifest_internal(message.as_str()))
        },
        EffectOwnership::OwnBeforeHead | EffectOwnership::Unverifiable => {
            let rest: String = cat3(
                "cannot safely delete first-touch '",
                pin.table_key.as_str(),
                "': its exact effect is buried or unverifiable",
            );
            Err(schema_error(id, rest.as_str()))
        },
    }
}

/// Whether a rollback sets a table back: the apply owns its effect and did not
/// create it.
pub open spec fn schema_restored(
    payload: RecoveryProtocolV7Model,
    pin: SidecarTablePinModel,
    state: ClassifiedTable,
) -> bool {
    !(schema_effect(payload, pin).kind is FirstTouchDataset) && owned(state.effect_ownership)
}

/// How a table is set back, on the main branch and under its alias before the
/// apply.
pub open spec fn schema_restoration(
    payload: RecoveryProtocolV7Model,
    pin: SidecarTablePinModel,
    state: ClassifiedTable,
) -> RestorationModel {
    RestorationModel {
        table_branch: None,
        ..restoration(pin, state, restored_alias(payload.intended_delta.renames, pin))
    }
}

/// The tables that a rollback sets back, among the first `n`.
pub open spec fn schema_restorations(
    payload: RecoveryProtocolV7Model,
    pins: Seq<SidecarTablePinModel>,
    states: Seq<ClassifiedTable>,
    n: int,
) -> Seq<RestorationModel>
    decreases n,
{
    if n <= 0 {
        Seq::empty()
    } else if schema_restored(payload, pins[n - 1], states[n - 1]) {
        schema_restorations(payload, pins, states, n - 1).push(
            schema_restoration(payload, pins[n - 1], states[n - 1]),
        )
    } else {
        schema_restorations(payload, pins, states, n - 1)
    }
}

/// The tables that a rollback of a schema apply sets back.
pub fn plan_schema_restorations(
    payload: &RecoveryProtocolV7,
    pins: &Vec<SidecarTablePin>,
    states: &Vec<ClassifiedTable>,
) -> (list: Vec<Restoration>)
    requires
        states.len() == pins.len(),
        within(
            identities::<SidecarTablePin>(views(pins@)),
            identities::<RecoverySchemaApplyEffect>(payload@.effects),
        ),
    ensures
        views(list@) == schema_restorations(
            payload@,
            views(pins@),
            states@,
            states@.len() as int,
        ),
{
    let ghost models = views(pins@);
    let mut list: Vec<Restoration> = Vec::new();
    let mut i: usize = 0;
    assert(views(list@) =~= schema_restorations(payload@, models, states@, 0));
    while i < pins.len()
        invariant
            i <= pins.len(),
            states.len() == pins.len(),
            models == views(pins@),
            within(
                identities::<SidecarTablePin>(models),
                identities::<RecoverySchemaApplyEffect>(payload@.effects),
            ),
            views(list@) == schema_restorations(payload@, models, states@, i as int),
        decreases pins.len() - i,
    {
        let pin: &SidecarTablePin = &pins[i];
        assert(models[i as int] == pin@);
        assert(identities::<SidecarTablePin>(models)[i as int] == pin.identity);
        let first_touch: bool = match place_of(&payload.effects, pin.identity) {
            Some(at) => payload.effects[at].kind.is_first_touch(),
            None => {
                assert(false);
                true
            },
        };
        if !first_touch && is_owned(states[i].effect_ownership) {
            let ghost before = list@;
            let alias: &String = schema_apply_rollback_table_key(payload, pin);
            let mut restored: Restoration = restoration_of(pin, &states[i], alias);
            restored.table_branch = None;
            list.push(restored);
            assert(views(list@) =~= views(before).push(list@[list@.len() - 1]@));
        }
        i += 1;
    }
    list
}

} // verus!
