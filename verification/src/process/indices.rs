//! The exact recovery of an ensure-indices run.

use vstd::prelude::*;

use crate::classify::{
    observed_head, pinned_branch, pinned_version, ClassifiedTable, TableClassification,
};
use crate::error::{conflict, internal, OmniError, OmniErrorModel};
use crate::history::{
    built_index, index_overflow, observe_head, prove_ensure_indices_create_index_operation,
    EffectOwnership, HeadReading, LanceHeadObservation, LanceHeadObservationModel, PlannedEffect,
};
use crate::lookup::{find_by_identity, identities, place_of, within};
use crate::process::forks::{
    contested, is_contested, BranchContents, BranchContentsModel, BranchListing, ForkStep,
    ForkStepModel, fork_text,
};
use crate::process::step::{
    refuse, refuse_step, roll_back, roll_back_step, summarize, summary, RecoveryStep,
    RecoveryStepModel, Summary,
};
use crate::rollback::{is_owned, owned, restoration, restoration_of, Restoration, RestorationModel};
use crate::shape::defect::{
    first_defect, lemma_first_defect, lemma_first_defect_push, lemma_no_defect, named_branch,
};
use crate::sidecar::{
    BranchIdentifier, RecoveryAuthorityToken, RecoveryAuthorityTokenModel, RecoveryEffectPhase,
    RecoveryEnsureIndicesEffect, RecoveryEnsureIndicesEffectModel, RecoveryMode, RecoveryProtocolV8,
    RecoveryProtocolV8Model, RecoverySidecar, RecoverySidecarModel, RecoveryTableUpdateSlot,
    SidecarTablePin, SidecarTablePinModel,
};
use crate::snapshot::{
    bound_entry, snapshot_entry_by_identity, snapshot_entry_for_pin, Snapshot, SnapshotEntry,
    SnapshotEntryModel, SnapshotModel,
};
use crate::text::{
    cat3, cat4, cat5, cat6, decimal, decimal_text, same_text, version_text, version_to_text,
};
use crate::value::{opt_view, same_opt, views, Same};

verus! {

/// A target branch of a table, as it was found.
#[derive(Debug, PartialEq, Eq)]
pub struct TargetRef {
    /// Version of the parent that the branch was forked at; a main branch has none.
    pub parent_version: Option<u64>,
    /// Identity of the branch.
    pub branch_identifier: BranchIdentifier,
    /// Newest version of the branch, and how it came to be.
    pub head: HeadReading,
}

/// What was read at one table of an ensure-indices run.
#[derive(Debug, PartialEq, Eq)]
pub struct IndexReading {
    /// The target branch, if it is there.
    pub target: Option<TargetRef>,
    /// The head of the target branch, if it could be opened.
    pub head: Option<HeadReading>,
}

/// The head of a table: one without a target branch never moved.
pub open spec fn index_head(
    pin: SidecarTablePinModel,
    effect: RecoveryEnsureIndicesEffectModel,
    pinned: u64,
    reading: IndexReading,
) -> LanceHeadObservationModel {
    observed_head(
        if reading.target is Some {
            reading.head
        } else {
            None
        },
        Some((pin.post_commit_pin, effect.planned_transaction.uuid, pinned)),
        pinned,
    )
}

/// Why a table cannot be looked at any further, if so.
pub open spec fn index_fault(
    snapshot: SnapshotModel,
    pin: SidecarTablePinModel,
    effect: RecoveryEnsureIndicesEffectModel,
    reading: IndexReading,
) -> Option<OmniErrorModel> {
    match bound_entry(snapshot, pin.identity, pin.table_key) {
        Err(error) => Some(error),
        Ok(entry) => if index_head(pin, effect, pinned_version(entry), reading).effect_ownership
            != EffectOwnership::Absent && effect.planned_transaction.read_version == u64::MAX {
            Some(index_overflow())
        } else {
            None
        },
    }
}

/// Why nobody may act on a table, if so.
pub open spec fn index_hazard(
    pin: SidecarTablePinModel,
    effect: RecoveryEnsureIndicesEffectModel,
    pinned: u64,
    reading: IndexReading,
) -> Option<Seq<char>> {
    let first_touch = effect.source_fork_version is Some;
    let head = index_head(pin, effect, pinned, reading);
    match reading.target {
        Some(target) => if first_touch && target.parent_version != effect.source_fork_version {
            Some(
                "first-touch target ref for table '"@ + pin.table_key + "' was forked at "@
                    + version_text(target.parent_version) + ", expected "@ + version_text(
                    effect.source_fork_version,
                ),
            )
        } else if first_touch && effect.confirmed_branch_identifier is Some
            && effect.confirmed_branch_identifier != Some(target.branch_identifier@) {
            Some(
                "first-touch target ref identity for table '"@ + pin.table_key
                    + "' differs from its confirmed EnsureIndices effect"@,
            )
        } else if head.effect_ownership != EffectOwnership::Absent && !built_index(
            target.head.history,
            target.head.version,
            effect.planned_transaction,
        ) {
            Some(
                "owned transaction UUID for table '"@ + pin.table_key
                    + "' is not a verifiable CreateIndex operation"@,
            )
        } else {
            None
        },
        None => if first_touch {
            None
        } else {
            Some(
                "existing target ref for table '"@ + pin.table_key
                    + "' disappeared while EnsureIndices recovery was pending"@,
            )
        },
    }
}

/// Whether the manifest delta confirms a version of a table.
pub open spec fn delta_confirms(
    payload: RecoveryProtocolV8Model,
    pin: SidecarTablePinModel,
    version: u64,
) -> bool {
    match find_by_identity::<RecoveryTableUpdateSlot>(
        payload.intended_delta.table_updates,
        pin.identity,
    ) {
        Some(slot) => slot.confirmed is Some && slot.confirmed->0.table_version == version,
        None => false,
    }
}

/// The class of a table of an ensure-indices run.
pub open spec fn index_class(
    payload: RecoveryProtocolV8Model,
    pin: SidecarTablePinModel,
    effect: RecoveryEnsureIndicesEffectModel,
    pinned: u64,
    head: LanceHeadObservationModel,
) -> TableClassification {
    if head.version < pinned {
        TableClassification::InvariantViolation { observed: head.version }
    } else if head.version == pinned {
        if head.effect_ownership == EffectOwnership::Absent {
            TableClassification::NoMovement
        } else {
            TableClassification::UnexpectedEffectIdentity
        }
    } else if payload.effect_phase == RecoveryEffectPhase::EffectsConfirmed
        && head.effect_ownership == EffectOwnership::OwnAtHead && effect.confirmed_transaction
        == Some(effect.planned_transaction) && head.transaction == effect.confirmed_transaction
        && pin.confirmed_version == Some(head.version) && delta_confirms(
        payload,
        pin,
        head.version,
    ) && (effect.source_fork_version is Some ==> effect.confirmed_branch_identifier is Some)
        && pinned == pin.expected_version {
        TableClassification::RolledPastExpected
    } else if owned(head.effect_ownership) {
        TableClassification::IncompletePhaseB
    } else {
        TableClassification::UnexpectedEffectIdentity
    }
}

/// A table of an ensure-indices run that the manifest selects as `entry`.
pub open spec fn index_state(
    payload: RecoveryProtocolV8Model,
    pin: SidecarTablePinModel,
    effect: RecoveryEnsureIndicesEffectModel,
    entry: Option<SnapshotEntryModel>,
    reading: IndexReading,
) -> ClassifiedTable {
    let pinned = pinned_version(entry);
    let head = index_head(pin, effect, pinned, reading);
    ClassifiedTable {
        classification: index_class(payload, pin, effect, pinned, head),
        manifest_pinned: pinned,
        lance_head: head.version,
        effect_ownership: head.effect_ownership,
        unpublished_fork: effect.source_fork_version is Some && pinned_branch(entry) != Some(
            pin.table_branch,
        ),
    }
}

/// The effect of a pinned table.
pub open spec fn index_effect(
    payload: RecoveryProtocolV8Model,
    pin: SidecarTablePinModel,
) -> RecoveryEnsureIndicesEffectModel {
    find_by_identity::<RecoveryEnsureIndicesEffect>(payload.effects, pin.identity)->0
}

/// Why the tables of an ensure-indices run cannot be looked at any further.
pub open spec fn index_faults(
    snapshot: SnapshotModel,
    pins: Seq<SidecarTablePinModel>,
    payload: RecoveryProtocolV8Model,
    readings: Seq<IndexReading>,
) -> Seq<Option<OmniErrorModel>> {
    Seq::new(
        pins.len(),
        |i: int| index_fault(snapshot, pins[i], index_effect(payload, pins[i]), readings[i]),
    )
}

/// The live table of a pin, where it is bound as the pin says.
pub open spec fn pin_entry(snapshot: SnapshotModel, pin: SidecarTablePinModel) -> Option<
    SnapshotEntryModel,
> {
    bound_entry(snapshot, pin.identity, pin.table_key)->Ok_0
}

/// Why nobody may act on the tables of an ensure-indices run.
pub open spec fn index_hazards(
    snapshot: SnapshotModel,
    pins: Seq<SidecarTablePinModel>,
    payload: RecoveryProtocolV8Model,
    readings: Seq<IndexReading>,
) -> Seq<Option<Seq<char>>> {
    Seq::new(
        pins.len(),
        |i: int|
            index_hazard(
                pins[i],
                index_effect(payload, pins[i]),
                pinned_version(pin_entry(snapshot, pins[i])),
                readings[i],
            ),
    )
}

/// The tables of an ensure-indices run.
pub open spec fn index_states(
    snapshot: SnapshotModel,
    pins: Seq<SidecarTablePinModel>,
    payload: RecoveryProtocolV8Model,
    readings: Seq<IndexReading>,
) -> Seq<ClassifiedTable> {
    Seq::new(
        pins.len(),
        |i: int|
            index_state(
                payload,
                pins[i],
                index_effect(payload, pins[i]),
                pin_entry(snapshot, pins[i]),
                readings[i],
            ),
    )
}

/// Whether a target branch that the run forks is there.
pub open spec fn forked_ref_present(
    payload: RecoveryProtocolV8Model,
    pin: SidecarTablePinModel,
    reading: IndexReading,
) -> bool {
    index_effect(payload, pin).source_fork_version is Some && reading.target is Some
}

/// Whether some target branch that the run forks is there.
pub open spec fn any_forked_ref(
    pins: Seq<SidecarTablePinModel>,
    payload: RecoveryProtocolV8Model,
    readings: Seq<IndexReading>,
) -> bool {
    exists|i: int|
        0 <= i < pins.len() && forked_ref_present(payload, #[trigger] pins[i], readings[i])
}

/// What the tables of an ensure-indices run show.
#[derive(Debug, PartialEq, Eq)]
pub struct IndexObservation {
    pub states: Vec<ClassifiedTable>,
    /// Why nobody may act on them, if so.
    pub hazard: Option<String>,
    /// Whether some target branch that the run forks is there.
    pub forked_ref: bool,
}

/// Reads the head of one table of an ensure-indices run.
fn read_index_head(
    pin: &SidecarTablePin,
    effect: &RecoveryEnsureIndicesEffect,
    pinned: u64,
    reading: &IndexReading,
) -> (head: LanceHeadObservation)
    ensures
        head@ == index_head(pin@, effect@, pinned, *reading),
{
    if reading.target.is_some() {
        if let Some(found) = &reading.head {
            let planned: Option<PlannedEffect> = Some(
                PlannedEffect {
                    first_possible_version: pin.post_commit_pin,
                    uuid: effect.planned_transaction.uuid.clone(),
                    compensation_target: pinned,
                },
            );
            return observe_head(found, &planned);
        }
    }
    LanceHeadObservation {
        version: pinned,
        transaction: None,
        effect_ownership: EffectOwnership::Absent,
    }
}

/// Why nobody may act on a table, if so.
fn find_index_hazard(
    pin: &SidecarTablePin,
    effect: &RecoveryEnsureIndicesEffect,
    pinned: u64,
    reading: &IndexReading,
    ownership: EffectOwnership,
) -> (result: Result<Option<String>, OmniError>)
    requires
        ownership == index_head(pin@, effect@, pinned, *reading).effect_ownership,
    ensures
        if ownership != EffectOwnership::Absent && effect.planned_transaction.read_version
            == u64::MAX {
            result is Err && result->Err_0@ == index_overflow()
        } else {
            result is Ok && opt_view(result->Ok_0) == index_hazard(pin@, effect@, pinned, *reading)
        },
{
    let first_touch: bool = effect.is_first_touch();
    let target: &TargetRef = match &reading.target {
        Some(target) => target,
        None => {
            if first_touch {
                return Ok(None);
            }
            return Ok(
                Some(
                    cat3(
                        "existing target ref for table '",
                        pin.table_key.as_str(),
                        "' disappeared while EnsureIndices recovery was pending",
                    ),
                ),
            );
        },
    };
    let built: bool = if ownership != EffectOwnership::Absent {
        match prove_ensure_indices_create_index_operation(
            &target.head.history,
            target.head.version,
            &effect.planned_transaction,
        ) {
            Ok(built) => built,
            Err(error) => {
                return Err(error);
            },
        }
    } else {
        true
    };
    if first_touch && target.parent_version != effect.source_fork_version {
        let actual: String = version_to_text(target.parent_version);
        let expected: String = version_to_text(effect.source_fork_version);
        return Ok(
            Some(
                cat6(
                    "first-touch target ref for table '",
                    pin.table_key.as_str(),
                    "' was forked at ",
                    actual.as_str(),
                    ", expected ",
                    expected.as_str(),
                ),
            ),
        );
    }
    if first_touch {
        if let Some(expected) = &effect.confirmed_branch_identifier {
            if !target.branch_identifier.same(expected) {
                return Ok(
                    Some(
                        cat3(
                            "first-touch target ref identity for table '",
                            pin.table_key.as_str(),
                            "' differs from its confirmed EnsureIndices effect",
                        ),
                    ),
                );
            }
        }
    }
    if !built {
        return Ok(
            Some(
                cat3(
                    "owned transaction UUID for table '",
                    pin.table_key.as_str(),
                    "' is not a verifiable CreateIndex operation",
                ),
            ),
        );
    }
    Ok(None)
}

/// Whether the manifest delta confirms a version of a table.
fn is_confirmed_by_delta(payload: &RecoveryProtocolV8, pin: &SidecarTablePin, version: u64) -> (answer:
    bool)
    ensures
        answer == delta_confirms(payload@, pin@, version),
{
    match place_of(&payload.intended_delta.table_updates, pin.identity) {
        Some(i) => match &payload.intended_delta.table_updates[i].confirmed {
            Some(confirmed) => confirmed.table_version == version,
            None => false,
        },
        None => false,
    }
}

/// Classifies a table of an ensure-indices run.
fn classify_index(
    payload: &RecoveryProtocolV8,
    pin: &SidecarTablePin,
    effect: &RecoveryEnsureIndicesEffect,
    pinned: u64,
    head: &LanceHeadObservation,
) -> (class: TableClassification)
    ensures
        class == index_class(payload@, pin@, effect@, pinned, head@),
{
    if head.version < pinned {
        return TableClassification::InvariantViolation { observed: head.version };
    }
    if head.version == pinned {
        return if head.effect_ownership == EffectOwnership::Absent {
            TableClassification::NoMovement
        } else {
            TableClassification::UnexpectedEffectIdentity
        };
    }
    let landed: bool = match &effect.confirmed_transaction {
        Some(confirmed) => confirmed.same(&effect.planned_transaction) && same_opt(
            &head.transaction,
            &effect.confirmed_transaction,
        ),
        None => false,
    };
    if payload.effect_phase == RecoveryEffectPhase::EffectsConfirmed && head.effect_ownership
        == EffectOwnership::OwnAtHead && landed && pin.confirmed_version == Some(head.version)
        && is_confirmed_by_delta(payload, pin, head.version) && (!effect.is_first_touch()
        || effect.confirmed_branch_identifier.is_some()) && pinned == pin.expected_version {
        return TableClassification::RolledPastExpected;
    }
    if is_owned(head.effect_ownership) {
        TableClassification::IncompletePhaseB
    } else {
        TableClassification::UnexpectedEffectIdentity
    }
}

/// Looks at the tables of an ensure-indices run.
pub fn observe_indices(
    snapshot: &Snapshot,
    sidecar: &RecoverySidecar,
    payload: &RecoveryProtocolV8,
    readings: &Vec<IndexReading>,
) -> (result: Result<IndexObservation, OmniError>)
    requires
        readings.len() == sidecar.tables.len(),
        within(
            identities::<SidecarTablePin>(sidecar@.tables),
            identities::<RecoveryEnsureIndicesEffect>(payload@.effects),
        ),
    ensures
        match first_defect(index_faults(snapshot@, sidecar@.tables, payload@, readings@)) {
            Some(error) => result is Err && result->Err_0@ == error,
            None => {
                &&& result is Ok
                &&& result->Ok_0.states@ == index_states(
                    snapshot@,
                    sidecar@.tables,
                    payload@,
                    readings@,
                )
                &&& opt_view(result->Ok_0.hazard) == first_defect(
                    index_hazards(snapshot@, sidecar@.tables, payload@, readings@),
                )
                &&& result->Ok_0.forked_ref == any_forked_ref(
                    sidecar@.tables,
                    payload@,
                    readings@,
                )
            },
        },
{
    let pins: &Vec<SidecarTablePin> = &sidecar.tables;
    let ghost models = sidecar@.tables;
    let ghost faults = index_faults(snapshot@, models, payload@, readings@);
    let ghost hazards = index_hazards(snapshot@, models, payload@, readings@);
    let ghost expected = index_states(snapshot@, models, payload@, readings@);
    let mut states: Vec<ClassifiedTable> = Vec::new();
    let mut hazard: Option<String> = None;
    let mut forked_ref: bool = false;
    let mut i: usize = 0;
    assert(hazards.subrange(0, 0) =~= Seq::empty());
    while i < pins.len()
        invariant
            i <= pins.len(),
            *pins == sidecar.tables,
            models == sidecar@.tables,
            models == views(pins@),
            readings.len() == pins.len(),
            within(
                identities::<SidecarTablePin>(models),
                identities::<RecoveryEnsureIndicesEffect>(payload@.effects),
            ),
            faults == index_faults(snapshot@, models, payload@, readings@),
            hazards == index_hazards(snapshot@, models, payload@, readings@),
            expected == index_states(snapshot@, models, payload@, readings@),
            forall|j: int| 0 <= j < i ==> faults[j] is None,
            states@ == expected.subrange(0, i as int),
            opt_view(hazard) == first_defect(hazards.subrange(0, i as int)),
            forked_ref == (exists|j: int|
                0 <= j < i && forked_ref_present(payload@, #[trigger] models[j], readings@[j])),
        decreases pins.len() - i,
    {
        let pin: &SidecarTablePin = &pins[i];
        let reading: &IndexReading = &readings[i];
        let ghost n = i as int;
        assert(models[n] == pin@);
        assert(identities::<SidecarTablePin>(models)[n] == pin.identity);
        let at: usize = match place_of(&payload.effects, pin.identity) {
            Some(at) => at,
            None => {
                assert(false);
                0
            },
        };
        let effect: &RecoveryEnsureIndicesEffect = &payload.effects[at];
        assert(index_effect(payload@, pin@) == effect@);
        assert(faults[n] == index_fault(snapshot@, pin@, effect@, *reading));
        let entry: Option<&SnapshotEntry> = match snapshot_entry_for_pin(snapshot, pin) {
            Ok(entry) => entry,
            Err(error) => {
                proof {
                    lemma_first_defect(faults, n);
                }
                return Err(error);
            },
        };
        assert(opt_view(entry) == pin_entry(snapshot@, pin@));
        let (pinned, elsewhere): (u64, bool) = match entry {
            Some(found) => (
                found.table.table_version,
                !same_opt(&found.table.table_branch, &pin.table_branch),
            ),
            None => (0, true),
        };
        let first_touch: bool = effect.is_first_touch();
        let head: LanceHeadObservation = read_index_head(pin, effect, pinned, reading);
        let found: Option<String> = match find_index_hazard(
            pin,
            effect,
            pinned,
            reading,
            head.effect_ownership,
        ) {
            Ok(found) => found,
            Err(error) => {
                proof {
                    lemma_first_defect(faults, n);
                }
                return Err(error);
            },
        };
        proof {
            assert(hazards[n] == opt_view(found));
            assert(hazards.subrange(0, n + 1) =~= hazards.subrange(0, n).push(hazards[n]));
            lemma_first_defect_push(hazards.subrange(0, n), hazards[n]);
        }
        if hazard.is_none() {
            hazard = found;
        }
        if first_touch && reading.target.is_some() {
            assert(forked_ref_present(payload@, models[n], readings@[n]));
            forked_ref = true;
        }
        let state: ClassifiedTable = ClassifiedTable {
            classification: classify_index(payload, pin, effect, pinned, &head),
            manifest_pinned: pinned,
            lance_head: head.version,
            effect_ownership: head.effect_ownership,
            unpublished_fork: first_touch && elsewhere,
        };
        assert(expected[n] == state);
        states.push(state);
        assert(states@ =~= expected.subrange(0, n + 1));
        i += 1;
    }
    proof {
        lemma_no_defect(faults);
        assert(expected.subrange(0, expected.len() as int) =~= expected);
        assert(hazards.subrange(0, hazards.len() as int) =~= hazards);
    }
    Ok(IndexObservation { states, hazard, forked_ref })
}

/// The next step of an ensure-indices run, from what its tables show.
pub open spec fn index_step(
    sidecar: RecoverySidecarModel,
    payload: RecoveryProtocolV8Model,
    facts: Summary,
    hazard: Option<Seq<char>>,
    forked_ref: bool,
    live: Option<RecoveryAuthorityTokenModel>,
    mode: RecoveryMode,
) -> RecoveryStepModel {
    if facts.unverifiable || facts.own_effect_buried || facts.owned_table_drift
        || facts.ambiguous_advance || hazard is Some {
        refuse(
            mode,
            "EnsureIndices recovery sidecar '"@ + sidecar.operation_id
                + "' observed unsafe physical state: "@ + match hazard {
                Some(reason) => reason,
                None => "unverifiable, buried, or foreign table/manifest movement"@,
            },
        )
    } else {
        match live {
            None => RecoveryStepModel::ReadLiveAuthority,
            Some(authority) => if authority.branch_identifier
                != payload.authority.branch_identifier {
                if facts.own_effect || forked_ref {
                    refuse(
                        mode,
                        "EnsureIndices recovery sidecar '"@ + sidecar.operation_id
                            + "' targets a branch incarnation that was deleted and recreated; refusing to act through the reused name"@,
                    )
                } else {
                    match mode {
                        RecoveryMode::RollForwardOnly => RecoveryStepModel::Defer,
                        RecoveryMode::Full => RecoveryStepModel::DeleteSidecar,
                    }
                }
            } else if payload.rollback_audit_outcomes is Some || payload.effect_phase
                == RecoveryEffectPhase::Armed || authority != payload.authority
                || !facts.all_reached {
                roll_back(mode)
            } else {
                RecoveryStepModel::RollForward
            },
        }
    }
}

/// Decides the next step of an ensure-indices run, once no fixed outcome of it is
/// visible. `live` is the live authority of its branch, once read.
pub fn process_ensure_indices_sidecar_v8(
    sidecar: &RecoverySidecar,
    payload: &RecoveryProtocolV8,
    observation: &IndexObservation,
    live: &Option<RecoveryAuthorityToken>,
    mode: RecoveryMode,
) -> (step: RecoveryStep)
    requires
        observation.states.len() == sidecar.tables.len(),
    ensures
        step@ == index_step(
            sidecar@,
            payload@,
            summary(sidecar@.tables, observation.states@),
            opt_view(observation.hazard),
            observation.forked_ref,
            opt_view(*live),
            mode,
        ),
{
    let facts: Summary = summarize(&sidecar.tables, &observation.states);
    let id: &str = sidecar.operation_id.as_str();
    if facts.unverifiable || facts.own_effect_buried || facts.owned_table_drift
        || facts.ambiguous_advance || observation.hazard.is_some() {
        let detail: &str = match &observation.hazard {
            Some(reason) => reason.as_str(),
            None => "unverifiable, buried, or foreign table/manifest movement",
        };
        let message: String = cat4(
            "EnsureIndices recovery sidecar '",
            id,
            "' observed unsafe physical state: ",
            detail,
        );
        return refuse_step(mode, message.as_str());
    }
    let authority: &RecoveryAuthorityToken = match live {
        Some(authority) => authority,
        None => {
            return RecoveryStep::ReadLiveAuthority;
        },
    };
    if !authority.branch_identifier.same(&payload.authority.branch_identifier) {
        if facts.own_effect || observation.forked_ref {
            let message: String = cat3(
                "EnsureIndices recovery sidecar '",
                id,
                "' targets a branch incarnation that was deleted and recreated; refusing to act through the reused name",
            );
            return refuse_step(mode, message.as_str());
        }
        return match mode {
            RecoveryMode::RollForwardOnly => RecoveryStep::Defer,
            RecoveryMode::Full => RecoveryStep::DeleteSidecar,
        };
    }
    if payload.rollback_audit_outcomes.is_some() || payload.effect_phase
        == RecoveryEffectPhase::Armed || !authority.same(&payload.authority)
        || !facts.all_reached {
        return roll_back_step(mode);
    }
    RecoveryStep::RollForward
}

/// A message about an ensure-indices sidecar.
pub open spec fn index_message(operation_id: Seq<char>, rest: Seq<char>) -> Seq<char> {
    "EnsureIndices sidecar '"@ + operation_id + "' "@ + rest
}

/// An error about an ensure-indices sidecar.
fn index_error(operation_id: &str, rest: &str) -> (error: OmniError)
    ensures
        error@ == internal(index_message(operation_id@, rest@)),
{
    let message: String = cat4("EnsureIndices sidecar '", operation_id, "' ", rest);
    OmniError::manifest_internal(message.as_str())
}

/// The error when an untouched fork cannot be removed before a rollback.
pub fn blocked_cleanup_error(
    sidecar: &RecoverySidecar,
    table_path: &str,
    target_branch: &str,
    path_child: &str,
) -> (error: OmniError)
    ensures
        error@ == internal(
            index_message(
                sidecar.operation_id@,
                "cannot clean first-touch '"@ + fork_text(table_path@, target_branch@)
                    + "' while path-child '"@ + path_child@ + "' is live"@,
            ),
        ),
{
    let fork: String = cat3(table_path, ":", target_branch);
    let rest: String = cat5(
        "cannot clean first-touch '",
        fork.as_str(),
        "' while path-child '",
        path_child,
        "' is live",
    );
    index_error(sidecar.operation_id.as_str(), rest.as_str())
}

/// The forked target branch that a rollback has to reclaim for a table, or why it
/// may not.
pub open spec fn reclaimable(
    snapshot: SnapshotModel,
    sidecar: RecoverySidecarModel,
    pin: SidecarTablePinModel,
    effect: RecoveryEnsureIndicesEffectModel,
    pending: Seq<RecoverySidecarModel>,
) -> Result<Option<Seq<char>>, OmniErrorModel> {
    let id = sidecar.operation_id;
    if effect.source_fork_version is None {
        Ok(None)
    } else if pinned_branch(snapshot.by_identity(pin.identity)) == Some(pin.table_branch) {
        Err(
            internal(
                index_message(
                    id,
                    "cannot reclaim first-touch ref for '"@ + pin.table_key
                        + "' because the manifest now owns it without the fixed original lineage"@,
                ),
            ),
        )
    } else {
        match named_branch(pin.table_branch) {
            None => Err(
                internal(
                    "EnsureIndices first-touch table '"@ + pin.table_key
                        + "' has no named target ref"@,
                ),
            ),
            Some(branch) => if contested(pending, id, pin.table_path, Some(branch)) {
                Err(
                    internal(
                        index_message(
                            id,
                            "cannot reclaim first-touch '"@ + fork_text(pin.table_path, branch)
                                + "' while another recovery intent claims it"@,
                        ),
                    ),
                )
            } else {
                Ok(Some(branch))
            },
        }
    }
}

/// The forked target branch that a rollback has to reclaim for a table, if any.
pub fn fork_to_reclaim<'a>(
    snapshot: &Snapshot,
    sidecar: &RecoverySidecar,
    pin: &'a SidecarTablePin,
    effect: &RecoveryEnsureIndicesEffect,
    pending: &Vec<RecoverySidecar>,
) -> (result: Result<Option<&'a String>, OmniError>)
    ensures
        match reclaimable(snapshot@, sidecar@, pin@, effect@, views(pending@)) {
            Ok(branch) => result is Ok && opt_view(result->Ok_0) == branch,
            Err(error) => result is Err && result->Err_0@ == error,
        },
{
    let id: &str = sidecar.operation_id.as_str();
    if !effect.is_first_touch() {
        return Ok(None);
    }
    if let Some(entry) = snapshot_entry_by_identity(snapshot, pin.identity) {
        if same_opt(&entry.table.table_branch, &pin.table_branch) {
            let rest: String = cat3(
                "cannot reclaim first-touch ref for '",
                pin.table_key.as_str(),
                "' because the manifest now owns it without the fixed original lineage",
            );
            return Err(index_error(id, rest.as_str()));
        }
    }
    if let Some(branch) = &pin.table_branch {
        if !same_text(branch.as_str(), "main") {
            if is_contested(pending, &sidecar.operation_id, &pin.table_path, Some(branch)) {
                let fork: String = cat3(pin.table_path.as_str(), ":", branch.as_str());
                let rest: String = cat3(
                    "cannot reclaim first-touch '",
                    fork.as_str(),
                    "' while another recovery intent claims it",
                );
                return Err(index_error(id, rest.as_str()));
            }
            return Ok(Some(branch));
        }
    }
    let message: String = cat3(
        "EnsureIndices first-touch table '",
        pin.table_key.as_str(),
        "' has no named target ref",
    );
    Err(OmniError::manifest_internal(message.as_str()))
}

/// What a rollback does with a forked target branch: it deletes exactly the branch
/// that the run made, with the run's effect at its head. A branch that moved
/// without the run is left to whoever moved it.
pub open spec fn reclaim_step(
    sidecar: RecoverySidecarModel,
    pin: SidecarTablePinModel,
    state: ClassifiedTable,
    effect: RecoveryEnsureIndicesEffectModel,
    branch: Seq<char>,
    path_child: Option<Seq<char>>,
    target: Option<BranchContentsModel>,
    head: Option<HeadReading>,
) -> ForkStepModel {
    let id = sidecar.operation_id;
    let fork = fork_text(pin.table_path, branch);
    let source = effect.source_fork_version->0;
    match (path_child, target) {
        (Some(child), _) => ForkStepModel::Refuse(
            internal(
                index_message(
                    id,
                    "cannot reclaim first-touch '"@ + fork + "' while path-child '"@ + child
                        + "' is live"@,
                ),
            ),
        ),
        (None, None) => ForkStepModel::ReclaimTree,
        (None, Some(found)) => if found.parent_version != source {
            ForkStepModel::Refuse(
                internal(
                    index_message(
                        id,
                        "first-touch '"@ + fork + "' has parent "@ + decimal(
                            found.parent_version as nat,
                        ) + ", expected "@ + decimal(source as nat),
                    ),
                ),
            )
        } else if effect.confirmed_branch_identifier is Some && effect.confirmed_branch_identifier
            != Some(found.identifier) {
            ForkStepModel::Refuse(
                internal(
                    index_message(
                        id,
                        "cannot reclaim first-touch '"@ + fork
                            + "' because its ref identity changed"@,
                    ),
                ),
            )
        } else {
            match state.effect_ownership {
                EffectOwnership::Absent => ForkStepModel::Keep,
                EffectOwnership::OwnBeforeHead | EffectOwnership::Unverifiable =>
                    ForkStepModel::Refuse(
                    internal(
                        index_message(
                            id,
                            "cannot safely reclaim first-touch '"@ + pin.table_key
                                + "': its exact effect is buried or unverifiable"@,
                        ),
                    ),
                ),
                EffectOwnership::OwnAtHead | EffectOwnership::OwnCompensatedAtHead => match head {
                    None => ForkStepModel::ReadHead,
                    Some(reading) => if reading.version == state.lance_head
                        && effect.planned_transaction.read_version == u64::MAX {
                        ForkStepModel::Refuse(index_overflow())
                    } else if reading.version != state.lance_head || !built_index(
                        reading.history,
                        reading.version,
                        effect.planned_transaction,
                    ) {
                        ForkStepModel::Refuse(
                            internal(
                                index_message(
                                    id,
                                    "cannot prove its exact first-touch CreateIndex effect for '"@
                                        + pin.table_key + "' before deletion"@,
                                ),
                            ),
                        )
                    } else {
                        ForkStepModel::DeleteBranch
                    },
                },
            }
        },
    }
}

/// Decides what a rollback does with a forked target branch. `head` is the head of
/// the branch, once read.
pub fn reclaim_fork(
    sidecar: &RecoverySidecar,
    pin: &SidecarTablePin,
    state: &ClassifiedTable,
    effect: &RecoveryEnsureIndicesEffect,
    branch: &str,
    listing: &BranchListing,
    head: &Option<HeadReading>,
) -> (step: ForkStep)
    requires
        effect.source_fork_version is Some,
    ensures
        step@ == reclaim_step(
            sidecar@,
            pin@,
            *state,
            effect@,
            branch@,
            opt_view(listing.path_child),
            opt_view(listing.target),
            *head,
        ),
{
    let id: &str = sidecar.operation_id.as_str();
    let fork: String = cat3(pin.table_path.as_str(), ":", branch);
    if let Some(child) = &listing.path_child {
        let rest: String = cat5(
            "cannot reclaim first-touch '",
            fork.as_str(),
            "' while path-child '",
            child.as_str(),
            "' is live",
        );
        return ForkStep::Refuse(index_error(id, rest.as_str()));
    }
    let found: &BranchContents = match &listing.target {
        Some(found) => found,
        None => {
            return ForkStep::ReclaimTree;
        },
    };
    if effect.source_fork_version != Some(found.parent_version) {
        let parent: String = decimal_text(found.parent_version);
        let source: String = match effect.source_fork_version {
            Some(version) => decimal_text(version),
            None => {
                assert(false);
                String::new()
            },
        };
        let rest: String = cat6(
            "first-touch '",
            fork.as_str(),
            "' has parent ",
            parent.as_str(),
            ", expected ",
            source.as_str(),
        );
        return ForkStep::Refuse(index_error(id, rest.as_str()));
    }
    if let Some(expected) = &effect.confirmed_branch_identifier {
        if !found.identifier.same(expected) {
            let rest: String = cat3(
                "cannot reclaim first-touch '",
                fork.as_str(),
                "' because its ref identity changed",
            );
            return ForkStep::Refuse(index_error(id, rest.as_str()));
        }
    }
    match state.effect_ownership {
        EffectOwnership::Absent => ForkStep::Keep,
        EffectOwnership::OwnBeforeHead | EffectOwnership::Unverifiable => {
            let rest: String = cat3(
                "cannot safely reclaim first-touch '",
                pin.table_key.as_str(),
                "': its exact effect is buried or unverifiable",
            );
            ForkStep::Refuse(index_error(id, rest.as_str()))
        },
        EffectOwnership::OwnAtHead | EffectOwnership::OwnCompensatedAtHead => {
            let reading: &HeadReading = match head {
                Some(reading) => reading,
                None => {
                    return ForkStep::ReadHead;
                },
            };
            let proven: bool = if reading.version == state.lance_head {
                match prove_ensure_indices_create_index_operation(
                    &reading.history,
                    reading.version,
                    &effect.planned_transaction,
                ) {
                    Ok(proven) => proven,
                    Err(error) => {
                        return ForkStep::Refuse(error);
                    },
                }
            } else {
                false
            };
            if !proven {
                let rest: String = cat3(
                    "cannot prove its exact first-touch CreateIndex effect for '",
                    pin.table_key.as_str(),
                    "' before deletion",
                );
                return ForkStep::Refuse(index_error(id, rest.as_str()));
            }
            ForkStep::DeleteBranch
        },
    }
}

/// Checks that what was left of an unlisted target branch is gone before a
/// rollback: `removed` tells whether the branch was still unlisted.
pub fn index_fork_reclaimed(branch: &str, removed: bool) -> (result: Result<(), OmniError>)
    ensures
        removed ==> result is Ok,
        !removed ==> result is Err && result->Err_0@ == conflict(
            "target ref '"@ + branch@ + "' appeared during EnsureIndices rollback"@,
        ),
{
    if removed {
        return Ok(());
    }
    let message: String = cat3(
        "target ref '",
        branch,
        "' appeared during EnsureIndices rollback",
    );
    Err(OmniError::manifest_conflict(message.as_str()))
}

/// Whether a rollback sets a table back: the run owns its effect and did not fork
/// its branch.
pub open spec fn index_restored(
    payload: RecoveryProtocolV8Model,
    pin: SidecarTablePinModel,
    state: ClassifiedTable,
) -> bool {
    index_effect(payload, pin).source_fork_version is None && owned(state.effect_ownership)
}

/// The tables that a rollback sets back, among the first `n`.
pub open spec fn index_restorations(
    payload: RecoveryProtocolV8Model,
    pins: Seq<SidecarTablePinModel>,
    states: Seq<ClassifiedTable>,
    n: int,
) -> Seq<RestorationModel>
    decreases n,
{
    if n <= 0 {
        Seq::empty()
    } else if index_restored(payload, pins[n - 1], states[n - 1]) {
        index_restorations(payload, pins, states, n - 1).push(
            restoration(pins[n - 1], states[n - 1], pins[n - 1].table_key),
        )
    } else {
        index_restorations(payload, pins, states, n - 1)
    }
}

/// The tables that a rollback of an ensure-indices run sets back.
pub fn plan_index_restorations(
    payload: &RecoveryProtocolV8,
    pins: &Vec<SidecarTablePin>,
    states: &Vec<ClassifiedTable>,
) -> (list: Vec<Restoration>)
    requires
        states.len() == pins.len(),
        within(
            identities::<SidecarTablePin>(views(pins@)),
            identities::<RecoveryEnsureIndicesEffect>(payload@.effects),
        ),
    ensures
        views(list@) == index_restorations(
            payload@,
            views(pins@),
            states@,
            states@.len() as int,
        ),
{
    let ghost models = views(pins@);
    let mut list: Vec<Restoration> = Vec::new();
    let mut i: usize = 0;
    assert(views(list@) =~= index_restorations(payload@, models, states@, 0));
    while i < pins.len()
        invariant
            i <= pins.len(),
            states.len() == pins.len(),
            models == views(pins@),
            within(
                identities::<SidecarTablePin>(models),
                identities::<RecoveryEnsureIndicesEffect>(payload@.effects),
            ),
            views(list@) == index_restorations(payload@, models, states@, i as int),
        decreases pins.len() - i,
    {
        let pin: &SidecarTablePin = &pins[i];
        assert(models[i as int] == pin@);
        assert(identities::<SidecarTablePin>(models)[i as int] == pin.identity);
        let first_touch: bool = match place_of(&payload.effects, pin.identity) {
            Some(at) => payload.effects[at].is_first_touch(),
            None => {
                assert(false);
                true
            },
        };
        if !first_touch && is_owned(states[i].effect_ownership) {
            let ghost before = list@;
            list.push(restoration_of(pin, &states[i], &pin.table_key));
            assert(views(list@) =~= views(before).push(list@[list@.len() - 1]@));
        }
        i += 1;
    }
    list
}

} // verus!
