//! Classification: what the head of each pinned table says of the attempt, and
//! the one decision that follows for all of them.

use vstd::prelude::*;

use crate::error::{OmniError, OmniErrorModel};
use crate::history::{
    head_observation, observe_head, EffectOwnership, HeadReading, LanceHeadObservation,
    LanceHeadObservationModel, PlannedEffect, planned_view,
};
use crate::lookup::{find_by_identity, place_of};
use crate::shape::branch_merge::names_branch;
use crate::shape::defect::{first_defect, lemma_first_defect, lemma_no_defect, named_branch};
use crate::sidecar::{
    RecoveryEffectPhase, RecoveryProtocolV3, RecoveryProtocolV3Model, RecoverySidecar,
    RecoverySidecarModel, RecoveryTableEffect, RecoveryTableUpdateSlot, SidecarKind,
    SidecarTablePin, SidecarTablePinModel, StagedTransactionIdentity,
    StagedTransactionIdentityModel, CONFIRMATION_SCHEMA_VERSION,
    ENSURE_INDICES_EXACT_SCHEMA_VERSION, EXACT_EFFECT_IDENTITY_SCHEMA_VERSION,
    SCHEMA_APPLY_EXACT_SCHEMA_VERSION,
};
use crate::snapshot::{
    bound_entry, snapshot_entry_for_pin, Snapshot, SnapshotEntry, SnapshotEntryModel, SnapshotModel,
};
use crate::text::{cat3, decimal, decimal_text};
use crate::value::{opt_view, same_opt, Same};

verus! {

/// Which semantics the tables of a sidecar are classified with.
#[derive(Clone, Copy, Debug, PartialEq, Eq, Structural)]
pub enum ClassificationMode {
    /// Exactly one commit for each table: the head has to be the announced one.
    Strict,
    /// Any number of commits that preserve content: every advance rolls forward.
    Loose,
    /// Several commits of distinct rows: only the confirmed head rolls forward.
    Confirmed,
    /// One exact transaction: it has to be confirmed and be found at the head.
    ExactEffect,
}

/// The semantics for a writer kind at a generation.
pub open spec fn mode_of(kind: SidecarKind, schema_version: u32) -> ClassificationMode {
    match kind {
        SidecarKind::Mutation | SidecarKind::Load => if schema_version
            >= EXACT_EFFECT_IDENTITY_SCHEMA_VERSION {
            ClassificationMode::ExactEffect
        } else {
            ClassificationMode::Strict
        },
        SidecarKind::BranchMerge => if schema_version >= CONFIRMATION_SCHEMA_VERSION {
            ClassificationMode::Confirmed
        } else {
            ClassificationMode::Loose
        },
        SidecarKind::SchemaApply => if schema_version >= SCHEMA_APPLY_EXACT_SCHEMA_VERSION {
            ClassificationMode::ExactEffect
        } else {
            ClassificationMode::Loose
        },
        SidecarKind::EnsureIndices => if schema_version >= ENSURE_INDICES_EXACT_SCHEMA_VERSION {
            ClassificationMode::ExactEffect
        } else {
            ClassificationMode::Loose
        },
        SidecarKind::Optimize => ClassificationMode::Loose,
    }
}

impl SidecarKind {
    /// The semantics for this writer kind at a generation.
    pub fn classification_mode(self, schema_version: u32) -> (mode: ClassificationMode)
        ensures
            mode == mode_of(self, schema_version),
    {
        match self {
            SidecarKind::Mutation | SidecarKind::Load => {
                if schema_version >= EXACT_EFFECT_IDENTITY_SCHEMA_VERSION {
                    ClassificationMode::ExactEffect
                } else {
                    ClassificationMode::Strict
                }
            },
            SidecarKind::BranchMerge => {
                if schema_version >= CONFIRMATION_SCHEMA_VERSION {
                    ClassificationMode::Confirmed
                } else {
                    ClassificationMode::Loose
                }
            },
            SidecarKind::SchemaApply => {
                if schema_version >= SCHEMA_APPLY_EXACT_SCHEMA_VERSION {
                    ClassificationMode::ExactEffect
                } else {
                    ClassificationMode::Loose
                }
            },
            SidecarKind::EnsureIndices => {
                if schema_version >= ENSURE_INDICES_EXACT_SCHEMA_VERSION {
                    ClassificationMode::ExactEffect
                } else {
                    ClassificationMode::Loose
                }
            },
            SidecarKind::Optimize => ClassificationMode::Loose,
        }
    }
}

/// What the head of one table says of the attempt.
#[derive(Clone, Copy, Debug, PartialEq, Eq, Structural)]
pub enum TableClassification {
    /// The head is the version that the manifest selects.
    NoMovement,
    /// The attempt reached its goal on this table; only the publish is missing.
    RolledPastExpected,
    /// One version past the manifest, but not as the attempt announced.
    UnexpectedAtP1,
    /// Further past the manifest, and not as the attempt announced; or past it by
    /// any distance where a confirmed version is not the head.
    UnexpectedMultistep,
    /// The head has the right number but another transaction made it.
    UnexpectedEffectIdentity,
    /// The attempt moved the table but never confirmed that it was done.
    IncompletePhaseB,
    /// The head is behind the manifest.
    InvariantViolation { observed: u64 },
}

/// The one decision for all tables of a sidecar.
#[derive(Clone, Copy, Debug, PartialEq, Eq, Structural)]
pub enum SidecarDecision {
    /// Every table reached its goal: publish them together.
    RollForward,
    /// Some table did not: undo those that moved.
    RollBack,
    /// An invariant is broken: leave everything for an operator.
    Abort,
}

/// The class of a table that moved past the manifest otherwise than announced: by
/// how far it moved.
pub open spec fn unexpected_class(head: u64, manifest_pinned: u64) -> TableClassification {
    if head == manifest_pinned + 1 {
        TableClassification::UnexpectedAtP1
    } else {
        TableClassification::UnexpectedMultistep
    }
}

/// The class of a table that moved past the manifest by an exact transaction.
pub open spec fn exact_class(
    pin: SidecarTablePinModel,
    head: u64,
    observed: Option<StagedTransactionIdentityModel>,
    manifest_pinned: u64,
    protocol: Option<RecoveryProtocolV3Model>,
) -> TableClassification {
    match protocol {
        None => TableClassification::IncompletePhaseB,
        Some(payload) => {
            let effect = find_by_identity::<RecoveryTableEffect>(payload.effects, pin.identity);
            let slot = find_by_identity::<RecoveryTableUpdateSlot>(
                payload.intended_delta.table_updates,
                pin.identity,
            );
            let confirmed = payload.effect_phase == RecoveryEffectPhase::EffectsConfirmed && effect
                is Some && slot is Some && effect->0.confirmed_transaction is Some
                && slot->0.confirmed is Some;
            if !confirmed {
                TableClassification::IncompletePhaseB
            } else if pin.expected_version != manifest_pinned || head
                != slot->0.confirmed->0.table_version || pin.confirmed_version != Some(
                slot->0.confirmed->0.table_version,
            ) {
                unexpected_class(head, manifest_pinned)
            } else if effect->0.confirmed_transaction != Some(effect->0.planned_transaction)
                || observed != effect->0.confirmed_transaction {
                TableClassification::UnexpectedEffectIdentity
            } else {
                TableClassification::RolledPastExpected
            }
        },
    }
}

/// The class of a table, from its head, the version that the manifest selects
/// and the semantics of its sidecar.
pub open spec fn class_of(
    pin: SidecarTablePinModel,
    head: u64,
    observed: Option<StagedTransactionIdentityModel>,
    manifest_pinned: u64,
    mode: ClassificationMode,
    protocol: Option<RecoveryProtocolV3Model>,
) -> TableClassification {
    if head < manifest_pinned {
        TableClassification::InvariantViolation { observed: head }
    } else if head == manifest_pinned {
        TableClassification::NoMovement
    } else {
        match mode {
            ClassificationMode::Confirmed => if pin.confirmed_version is None {
                TableClassification::IncompletePhaseB
            } else if pin.confirmed_version == Some(head) && pin.expected_version
                == manifest_pinned {
                TableClassification::RolledPastExpected
            } else {
                TableClassification::UnexpectedMultistep
            },
            ClassificationMode::Strict => if head != manifest_pinned + 1 {
                TableClassification::UnexpectedMultistep
            } else if pin.expected_version == manifest_pinned && pin.post_commit_pin == head {
                TableClassification::RolledPastExpected
            } else {
                TableClassification::UnexpectedAtP1
            },
            ClassificationMode::Loose => if pin.expected_version == manifest_pinned {
                TableClassification::RolledPastExpected
            } else {
                unexpected_class(head, manifest_pinned)
            },
            ClassificationMode::ExactEffect => exact_class(
                pin,
                head,
                observed,
                manifest_pinned,
                protocol,
            ),
        }
    }
}

/// Classifies a table of a sidecar without an exact payload.
pub fn classify_table(
    pin: &SidecarTablePin,
    lance_head: u64,
    manifest_pinned: u64,
    kind: SidecarKind,
    schema_version: u32,
) -> (class: TableClassification)
    ensures
        class == class_of(
            pin@,
            lance_head,
            None,
            manifest_pinned,
            mode_of(kind, schema_version),
            None,
        ),
{
    let observed: Option<StagedTransactionIdentity> = None;
    let protocol: Option<RecoveryProtocolV3> = None;
    classify_table_observation(
        pin,
        lance_head,
        &observed,
        manifest_pinned,
        kind,
        schema_version,
        &protocol,
    )
}

/// Classifies a table that moved past the manifest otherwise than announced.
fn classify_unexpected(lance_head: u64, manifest_pinned: u64) -> (class: TableClassification)
    requires
        lance_head > manifest_pinned,
    ensures
        class == unexpected_class(lance_head, manifest_pinned),
{
    if lance_head == manifest_pinned + 1 {
        TableClassification::UnexpectedAtP1
    } else {
        TableClassification::UnexpectedMultistep
    }
}

/// Classifies a table that moved past the manifest by an exact transaction.
fn classify_exact(
    pin: &SidecarTablePin,
    lance_head: u64,
    observed: &Option<StagedTransactionIdentity>,
    manifest_pinned: u64,
    protocol: &Option<RecoveryProtocolV3>,
) -> (class: TableClassification)
    requires
        lance_head > manifest_pinned,
    ensures
        class == exact_class(
            pin@,
            lance_head,
            opt_view(*observed),
            manifest_pinned,
            opt_view(*protocol),
        ),
{
    let payload: &RecoveryProtocolV3 = match protocol {
        Some(payload) => payload,
        None => {
            return TableClassification::IncompletePhaseB;
        },
    };
    if payload.effect_phase != RecoveryEffectPhase::EffectsConfirmed {
        return TableClassification::IncompletePhaseB;
    }
    let effect: &RecoveryTableEffect = match place_of(&payload.effects, pin.identity) {
        Some(i) => &payload.effects[i],
        None => {
            return TableClassification::IncompletePhaseB;
        },
    };
    let slot: &RecoveryTableUpdateSlot = match place_of(
        &payload.intended_delta.table_updates,
        pin.identity,
    ) {
        Some(i) => &payload.intended_delta.table_updates[i],
        None => {
            return TableClassification::IncompletePhaseB;
        },
    };
    match (&effect.confirmed_transaction, &slot.confirmed) {
        (Some(transaction), Some(update)) => {
            if pin.expected_version != manifest_pinned || lance_head != update.table_version
                || !same_opt(&pin.confirmed_version, &Some(update.table_version)) {
                return classify_unexpected(lance_head, manifest_pinned);
            }
            if !transaction.same(&effect.planned_transaction) || !same_opt(
                observed,
                &effect.confirmed_transaction,
            ) {
                return TableClassification::UnexpectedEffectIdentity;
            }
            TableClassification::RolledPastExpected
        },
        _ => TableClassification::IncompletePhaseB,
    }
}

/// Classifies a table from what was seen at its head.
pub fn classify_table_observation(
    pin: &SidecarTablePin,
    lance_head: u64,
    observed: &Option<StagedTransactionIdentity>,
    manifest_pinned: u64,
    kind: SidecarKind,
    schema_version: u32,
    protocol: &Option<RecoveryProtocolV3>,
) -> (class: TableClassification)
    ensures
        class == class_of(
            pin@,
            lance_head,
            opt_view(*observed),
            manifest_pinned,
            mode_of(kind, schema_version),
            opt_view(*protocol),
        ),
{
    if lance_head < manifest_pinned {
        return TableClassification::InvariantViolation { observed: lance_head };
    }
    if lance_head == manifest_pinned {
        return TableClassification::NoMovement;
    }
    match kind.classification_mode(schema_version) {
        ClassificationMode::Confirmed => match pin.confirmed_version {
            Some(confirmed) => {
                if lance_head == confirmed && pin.expected_version == manifest_pinned {
                    TableClassification::RolledPastExpected
                } else {
                    TableClassification::UnexpectedMultistep
                }
            },
            None => TableClassification::IncompletePhaseB,
        },
        ClassificationMode::Strict => {
            if lance_head == manifest_pinned + 1 {
                if pin.expected_version == manifest_pinned && pin.post_commit_pin == lance_head {
                    TableClassification::RolledPastExpected
                } else {
                    TableClassification::UnexpectedAtP1
                }
            } else {
                TableClassification::UnexpectedMultistep
            }
        },
        ClassificationMode::Loose => {
            if pin.expected_version == manifest_pinned {
                TableClassification::RolledPastExpected
            } else {
                classify_unexpected(lance_head, manifest_pinned)
            }
        },
        ClassificationMode::ExactEffect => classify_exact(
            pin,
            lance_head,
            observed,
            manifest_pinned,
            protocol,
        ),
    }
}

/// The decision that a set of classes calls for: all of them or none.
pub open spec fn decision(classes: Seq<TableClassification>) -> SidecarDecision {
    if exists|i: int| 0 <= i < classes.len() && (#[trigger] classes[i]) is InvariantViolation {
        SidecarDecision::Abort
    } else if forall|i: int|
        0 <= i < classes.len() ==> (#[trigger] classes[i])
            == TableClassification::RolledPastExpected {
        SidecarDecision::RollForward
    } else {
        SidecarDecision::RollBack
    }
}

/// The decision that a set of classes calls for.
pub fn decide(classifications: &[TableClassification]) -> (decided: SidecarDecision)
    ensures
        decided == decision(classifications@),
{
    let mut all_reached: bool = true;
    let mut i: usize = 0;
    while i < classifications.len()
        invariant
            i <= classifications.len(),
            all_reached == (forall|j: int|
                0 <= j < i ==> (#[trigger] classifications@[j])
                    == TableClassification::RolledPastExpected),
            forall|j: int|
                0 <= j < i ==> !((#[trigger] classifications@[j]) is InvariantViolation),
        decreases classifications.len() - i,
    {
        match classifications[i] {
            TableClassification::InvariantViolation { .. } => {
                assert(classifications@[i as int] is InvariantViolation);
                return SidecarDecision::Abort;
            },
            TableClassification::RolledPastExpected => {},
            _ => {
                assert(classifications@[i as int] != TableClassification::RolledPastExpected);
                all_reached = false;
            },
        }
        i += 1;
    }
    if all_reached {
        SidecarDecision::RollForward
    } else {
        SidecarDecision::RollBack
    }
}

/// How messages spell a class.
pub open spec fn class_text(class: TableClassification) -> Seq<char> {
    match class {
        TableClassification::NoMovement => "NoMovement"@,
        TableClassification::RolledPastExpected => "RolledPastExpected"@,
        TableClassification::UnexpectedAtP1 => "UnexpectedAtP1"@,
        TableClassification::UnexpectedMultistep => "UnexpectedMultistep"@,
        TableClassification::UnexpectedEffectIdentity => "UnexpectedEffectIdentity"@,
        TableClassification::IncompletePhaseB => "IncompletePhaseB"@,
        TableClassification::InvariantViolation { observed } => "InvariantViolation { observed: "@
            + decimal(observed as nat) + " }"@,
    }
}

/// A class, as messages spell it.
fn class_to_text(class: TableClassification) -> (text: String)
    ensures
        text@ == class_text(class),
{
    match class {
        TableClassification::NoMovement => "NoMovement".to_owned(),
        TableClassification::RolledPastExpected => "RolledPastExpected".to_owned(),
        TableClassification::UnexpectedAtP1 => "UnexpectedAtP1".to_owned(),
        TableClassification::UnexpectedMultistep => "UnexpectedMultistep".to_owned(),
        TableClassification::UnexpectedEffectIdentity => "UnexpectedEffectIdentity".to_owned(),
        TableClassification::IncompletePhaseB => "IncompletePhaseB".to_owned(),
        TableClassification::InvariantViolation { observed } => {
            let number: String = decimal_text(observed);
            cat3("InvariantViolation { observed: ", number.as_str(), " }")
        },
    }
}

/// The classes of the first `n` tables, separated by commas.
pub open spec fn joined_classes(states: Seq<ClassifiedTable>, n: int) -> Seq<char>
    decreases n,
{
    if n <= 0 {
        Seq::empty()
    } else if n == 1 {
        class_text(states[0].classification)
    } else {
        joined_classes(states, n - 1) + ", "@ + class_text(states[n - 1].classification)
    }
}

/// How messages spell the classes of all tables.
pub open spec fn classes_text(states: Seq<ClassifiedTable>) -> Seq<char> {
    "["@ + joined_classes(states, states.len() as int) + "]"@
}

/// The classes of all tables, as messages spell them.
pub fn classes_to_text(states: &Vec<ClassifiedTable>) -> (text: String)
    ensures
        text@ == classes_text(states@),
{
    let mut joined: String = String::new();
    let mut i: usize = 0;
    while i < states.len()
        invariant
            i <= states.len(),
            joined@ == joined_classes(states@, i as int),
        decreases states.len() - i,
    {
        let next: String = class_to_text(states[i].classification);
        if i == 0 {
            joined = next;
        } else {
            joined = cat3(joined.as_str(), ", ", next.as_str());
        }
        i += 1;
    }
    cat3("[", joined.as_str(), "]")
}

/// One pinned table with its class and what it was classified from.
#[derive(Clone, Copy, Debug, PartialEq, Eq, Structural)]
pub struct ClassifiedTable {
    pub classification: TableClassification,
    pub manifest_pinned: u64,
    /// Head of the table when it was classified, before anything is undone.
    pub lance_head: u64,
    pub effect_ownership: EffectOwnership,
    /// The manifest still inherits the table from another branch, while the pin
    /// names the branch that the attempt forks.
    pub unpublished_fork: bool,
}

/// What to look for at one pinned table.
#[derive(Debug, PartialEq, Eq)]
pub struct TableProbe {
    pub manifest_pinned: u64,
    pub unpublished_fork: bool,
    /// Whether the target branch may be missing: the attempt may have crashed
    /// before it forked the branch.
    pub allow_missing_target_ref: bool,
    pub planned_effect: Option<PlannedEffect>,
}

/// Whether the manifest still inherits a pinned table that the attempt forks.
pub open spec fn fork_unpublished(
    sidecar: RecoverySidecarModel,
    pin: SidecarTablePinModel,
    manifest_branch: Option<Option<Seq<char>>>,
) -> bool {
    &&& sidecar.protocol_v3 is Some || sidecar.writer_kind == SidecarKind::EnsureIndices
    &&& named_branch(pin.table_branch) is Some
    &&& sidecar.branch == pin.table_branch
    &&& manifest_branch != Some(pin.table_branch)
}

/// The planned effect of a pinned table, where its sidecar has an exact payload.
pub open spec fn planned_effect_of(
    sidecar: RecoverySidecarModel,
    pin: SidecarTablePinModel,
    manifest_pinned: u64,
) -> Option<(u64, Seq<char>, u64)> {
    match sidecar.protocol_v3 {
        None => None,
        Some(payload) => match find_by_identity::<RecoveryTableEffect>(
            payload.effects,
            pin.identity,
        ) {
            None => None,
            Some(effect) => Some(
                (pin.post_commit_pin, effect.planned_transaction.uuid, manifest_pinned),
            ),
        },
    }
}

/// The version that the manifest selects for a table, or zero for none.
pub open spec fn pinned_version(
    entry: Option<SnapshotEntryModel>,
) -> u64 {
    match entry {
        Some(found) => found.table.table_version,
        None => 0,
    }
}

/// The branch that the manifest selects for a table, if it selects the table.
pub open spec fn pinned_branch(
    entry: Option<SnapshotEntryModel>,
) -> Option<Option<Seq<char>>> {
    match entry {
        Some(found) => Some(found.table.table_branch),
        None => None,
    }
}

/// What to look for at a pinned table that the manifest selects as `entry`.
pub open spec fn probe_matches(
    sidecar: RecoverySidecarModel,
    pin: SidecarTablePinModel,
    entry: Option<SnapshotEntryModel>,
    probe: TableProbe,
) -> bool {
    let armed = sidecar.protocol_v3 is Some && sidecar.protocol_v3->0.effect_phase
        == RecoveryEffectPhase::Armed;
    &&& probe.manifest_pinned == pinned_version(entry)
    &&& probe.unpublished_fork == fork_unpublished(sidecar, pin, pinned_branch(entry))
    &&& probe.allow_missing_target_ref == (probe.unpublished_fork && (sidecar.writer_kind
        == SidecarKind::EnsureIndices || armed))
    &&& planned_view(probe.planned_effect) == planned_effect_of(
        sidecar,
        pin,
        probe.manifest_pinned,
    )
}

/// Plans what to look for at a pinned table.
pub fn plan_probe(snapshot: &Snapshot, sidecar: &RecoverySidecar, pin: &SidecarTablePin) -> (result:
    Result<TableProbe, OmniError>)
    ensures
        match bound_entry(snapshot@, pin.identity, pin.table_key@) {
            Ok(entry) => result is Ok && probe_matches(sidecar@, pin@, entry, result->Ok_0),
            Err(error) => result is Err && result->Err_0@ == error,
        },
{
    let entry: Option<&SnapshotEntry> = match snapshot_entry_for_pin(snapshot, pin) {
        Ok(entry) => entry,
        Err(error) => {
            return Err(error);
        },
    };
    let (manifest_pinned, elsewhere): (u64, bool) = match entry {
        Some(found) => (
            found.table.table_version,
            !same_opt(&found.table.table_branch, &pin.table_branch),
        ),
        None => (0, true),
    };
    let unpublished_fork: bool = (sidecar.protocol_v3.is_some() || sidecar.writer_kind
        == SidecarKind::EnsureIndices) && names_branch(&pin.table_branch) && same_opt(
        &sidecar.branch,
        &pin.table_branch,
    ) && elsewhere;
    let armed: bool = match &sidecar.protocol_v3 {
        Some(payload) => payload.effect_phase == RecoveryEffectPhase::Armed,
        None => false,
    };
    let planned_effect: Option<PlannedEffect> = match &sidecar.protocol_v3 {
        Some(payload) => match place_of(&payload.effects, pin.identity) {
            Some(i) => Some(
                PlannedEffect {
                    first_possible_version: pin.post_commit_pin,
                    uuid: payload.effects[i].planned_transaction.uuid.clone(),
                    compensation_target: manifest_pinned,
                },
            ),
            None => None,
        },
        None => None,
    };
    Ok(
        TableProbe {
            manifest_pinned,
            unpublished_fork,
            allow_missing_target_ref: unpublished_fork && (sidecar.writer_kind
                == SidecarKind::EnsureIndices || armed),
            planned_effect,
        },
    )
}

/// What the head of a table is, where a table that is not there never moved.
pub open spec fn observed_head(
    reading: Option<HeadReading>,
    planned: Option<(u64, Seq<char>, u64)>,
    manifest_pinned: u64,
) -> LanceHeadObservationModel {
    match reading {
        Some(found) => head_observation(found, planned),
        None => LanceHeadObservationModel {
            version: manifest_pinned,
            transaction: None,
            effect_ownership: EffectOwnership::Absent,
        },
    }
}

/// The class of a pinned table that the manifest selects as `entry`, and what it
/// follows from.
pub open spec fn state_of(
    sidecar: RecoverySidecarModel,
    pin: SidecarTablePinModel,
    entry: Option<SnapshotEntryModel>,
    reading: Option<HeadReading>,
) -> ClassifiedTable {
    let pinned = pinned_version(entry);
    let head = observed_head(reading, planned_effect_of(sidecar, pin, pinned), pinned);
    ClassifiedTable {
        classification: class_of(
            pin,
            head.version,
            head.transaction,
            pinned,
            mode_of(sidecar.writer_kind, sidecar.schema_version),
            sidecar.protocol_v3,
        ),
        manifest_pinned: pinned,
        lance_head: head.version,
        effect_ownership: head.effect_ownership,
        unpublished_fork: fork_unpublished(sidecar, pin, pinned_branch(entry)),
    }
}

/// Classifies one pinned table from what was read at its head.
pub fn classify_probe(
    sidecar: &RecoverySidecar,
    pin: &SidecarTablePin,
    probe: &TableProbe,
    reading: &Option<HeadReading>,
) -> (state: ClassifiedTable)
    ensures
        forall|entry: Option<SnapshotEntryModel>| #[trigger]
            probe_matches(sidecar@, pin@, entry, *probe) ==> state == state_of(
                sidecar@,
                pin@,
                entry,
                *reading,
            ),
{
    let head: LanceHeadObservation = match reading {
        Some(found) => observe_head(found, &probe.planned_effect),
        None => LanceHeadObservation {
            version: probe.manifest_pinned,
            transaction: None,
            effect_ownership: EffectOwnership::Absent,
        },
    };
    ClassifiedTable {
        classification: classify_table_observation(
            pin,
            head.version,
            &head.transaction,
            probe.manifest_pinned,
            sidecar.writer_kind,
            sidecar.schema_version,
            &sidecar.protocol_v3,
        ),
        manifest_pinned: probe.manifest_pinned,
        lance_head: head.version,
        effect_ownership: head.effect_ownership,
        unpublished_fork: probe.unpublished_fork,
    }
}

/// The first pin whose table is not bound as the sidecar says, if any.
pub open spec fn binding_faults(
    snapshot: SnapshotModel,
    pins: Seq<SidecarTablePinModel>,
) -> Seq<Option<OmniErrorModel>> {
    Seq::new(
        pins.len(),
        |i: int|
            match bound_entry(snapshot, pins[i].identity, pins[i].table_key) {
                Ok(_) => None,
                Err(error) => Some(error),
            },
    )
}

/// Classifies every pinned table of a sidecar from what was read at its head.
pub fn classify_sidecar_tables(
    snapshot: &Snapshot,
    sidecar: &RecoverySidecar,
    readings: &Vec<Option<HeadReading>>,
) -> (result: Result<Vec<ClassifiedTable>, OmniError>)
    requires
        readings.len() == sidecar.tables.len(),
    ensures
        match first_defect(
            binding_faults(snapshot@, sidecar@.tables),
        ) {
            Some(error) => result is Err && result->Err_0@ == error,
            None => {
                &&& result is Ok
                &&& result->Ok_0@.len() == sidecar.tables.len()
                &&& forall|i: int|
                    0 <= i < sidecar.tables.len() ==> #[trigger] result->Ok_0@[i] == state_of(
                        sidecar@,
                        sidecar.tables@[i]@,
                        bound_entry(
                            snapshot@,
                            sidecar.tables@[i].identity,
                            sidecar.tables@[i].table_key@,
                        )->Ok_0,
                        readings@[i],
                    )
            },
        },
{
    let pins = &sidecar.tables;
    let ghost faults = binding_faults(snapshot@, sidecar@.tables);
    let mut states: Vec<ClassifiedTable> = Vec::new();
    let mut i: usize = 0;
    while i < pins.len()
        invariant
            i <= pins.len(),
            *pins == sidecar.tables,
            readings.len() == pins.len(),
            states.len() == i,
            faults == binding_faults(snapshot@, sidecar@.tables),
            forall|j: int| 0 <= j < i ==> faults[j] is None,
            forall|j: int|
                0 <= j < i ==> #[trigger] states@[j] == state_of(
                    sidecar@,
                    sidecar.tables@[j]@,
                    bound_entry(
                        snapshot@,
                        sidecar.tables@[j].identity,
                        sidecar.tables@[j].table_key@,
                    )->Ok_0,
                    readings@[j],
                ),
        decreases pins.len() - i,
    {
        assert(sidecar@.tables[i as int] == pins@[i as int]@);
        assert(faults[i as int] == match bound_entry(
            snapshot@,
            pins@[i as int].identity,
            pins@[i as int].table_key@,
        ) {
            Ok(_) => None,
            Err(error) => Some(error),
        });
        match plan_probe(snapshot, sidecar, &pins[i]) {
            Ok(probe) => {
                let state: ClassifiedTable = classify_probe(
                    sidecar,
                    &pins[i],
                    &probe,
                    &readings[i],
                );
                assert(probe_matches(
                    sidecar@,
                    pins@[i as int]@,
                    bound_entry(
                        snapshot@,
                        pins@[i as int].identity,
                        pins@[i as int].table_key@,
                    )->Ok_0,
                    probe,
                ));
                states.push(state);
            },
            Err(error) => {
                proof {
                    lemma_first_defect(faults, i as int);
                }
                return Err(error);
            },
        }
        i += 1;
    }
    proof {
        lemma_no_defect(faults);
    }
    Ok(states)
}

/// Whether a class calls for undoing something on its table.
pub open spec fn moved(class: TableClassification) -> bool {
    !(class is NoMovement) && !(class is InvariantViolation)
}

/// Whether a table calls for undoing something on it.
pub fn table_requires_rollback_effect(state: &ClassifiedTable) -> (answer: bool)
    ensures
        answer == moved(state.classification),
{
    match state.classification {
        TableClassification::RolledPastExpected
        | TableClassification::UnexpectedAtP1
        | TableClassification::UnexpectedMultistep
        | TableClassification::UnexpectedEffectIdentity
        | TableClassification::IncompletePhaseB => true,
        TableClassification::NoMovement | TableClassification::InvariantViolation { .. } => false,
    }
}

/// The classes of a list of tables.
pub open spec fn classes(states: Seq<ClassifiedTable>) -> Seq<TableClassification> {
    Seq::new(states.len(), |i: int| states[i].classification)
}

/// The classes of a list of tables.
pub fn collect_classes(states: &Vec<ClassifiedTable>) -> (list: Vec<TableClassification>)
    ensures
        list@ == classes(states@),
{
    let mut list: Vec<TableClassification> = Vec::new();
    let mut i: usize = 0;
    while i < states.len()
        invariant
            i <= states.len(),
            list.len() == i,
            forall|j: int| 0 <= j < i ==> list@[j] == states@[j].classification,
        decreases states.len() - i,
    {
        list.push(states[i].classification);
        i += 1;
    }
    assert(list@ =~= classes(states@));
    list
}

} // verus!
