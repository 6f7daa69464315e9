//! The exact recovery of a branch merge.

use vstd::prelude::*;

use crate::classify::{pinned_branch, pinned_version, ClassifiedTable, TableClassification};
use crate::error::{OmniError, OmniErrorModel};
use crate::history::{
    merge_proof, prove_branch_merge_multi_commit_effect, BranchMergeMultiCommitProof,
    BranchMergeMultiCommitProofModel, EffectOwnership,
};
use crate::lookup::{find_by_identity, identities, place_of, within};
use crate::process::indices::TargetRef;
use crate::process::step::{
    refuse, refuse_step, roll_back, roll_back_step, RecoveryStep, RecoveryStepModel,
};
use crate::shape::branch_merge::names_branch;
use crate::shape::defect::{
    first_defect, lemma_first_defect, lemma_first_defect_push, lemma_no_defect, named_branch,
};
use crate::sidecar::{
    RecoveryAuthorityToken, RecoveryAuthorityTokenModel, RecoveryBranchMergeEffect,
    RecoveryBranchMergeEffectKind, RecoveryBranchMergeEffectKindModel,
    RecoveryBranchMergeEffectModel, RecoveryEffectPhase, RecoveryMode, RecoveryProtocolV4,
    RecoveryProtocolV4Model, RecoverySidecar, RecoverySidecarModel, SidecarTablePin,
    SidecarTablePinModel, StagedTransactionIdentity, StagedTransactionIdentityModel,
};
use crate::snapshot::{
    bound_entry, snapshot_entry_for_pin, Snapshot, SnapshotEntry, SnapshotEntryModel, SnapshotModel,
};
use crate::text::{cat3, cat4, cat6, decimal, decimal_text, version_text, version_to_text};
use crate::value::{opt_view, same_opt, views, Same};

verus! {

/// What one table of a branch merge shows.
#[derive(Debug, PartialEq, Eq)]
pub struct MergedTable {
    pub state: ClassifiedTable,
    /// Why nobody may act on it, if so.
    pub hazard: Option<String>,
    /// How it differs from what the merge confirmed, if it does.
    pub mismatch: Option<String>,
    /// Whether the merge left anything physical.
    pub physical: bool,
    /// Whether its head moved past what the merge started from.
    pub moved: bool,
    /// Whether it is exactly as the merge confirmed.
    pub complete: bool,
}

/// What a [`MergedTable`] stands for.
pub struct MergedTableModel {
    pub state: ClassifiedTable,
    pub hazard: Option<Seq<char>>,
    pub mismatch: Option<Seq<char>>,
    pub physical: bool,
    pub moved: bool,
    pub complete: bool,
}

impl View for MergedTable {
    type V = MergedTableModel;

    open spec fn view(&self) -> MergedTableModel {
        MergedTableModel {
            state: self.state,
            hazard: opt_view(self.hazard),
            mismatch: opt_view(self.mismatch),
            physical: self.physical,
            moved: self.moved,
            complete: self.complete,
        }
    }
}

/// The effect of a pinned table.
pub open spec fn merged_effect(
    payload: RecoveryProtocolV4Model,
    pin: SidecarTablePinModel,
) -> RecoveryBranchMergeEffectModel {
    find_by_identity::<RecoveryBranchMergeEffect>(payload.effects, pin.identity)->0
}

/// Whether every effect that commits data plans at least one transaction.
pub open spec fn chains_present(effects: Seq<RecoveryBranchMergeEffectModel>) -> bool {
    forall|i: int|
        0 <= i < effects.len() ==> match (#[trigger] effects[i]).kind {
            RecoveryBranchMergeEffectKindModel::MultiCommitHead { planned_transactions, .. } =>
                planned_transactions.len() > 0,
            RecoveryBranchMergeEffectKindModel::RefOnlyFork { .. } => true,
        }
}

/// Why nobody may act on the target branch of a merged table, if so.
pub open spec fn ref_hazard(
    pin: SidecarTablePinModel,
    effect: RecoveryBranchMergeEffectModel,
    pinned: u64,
    target: Option<TargetRef>,
) -> Option<Seq<char>> {
    let fork = effect.kind.fork_version();
    let confirmed = effect.kind.confirmed_branch();
    if pinned != pin.expected_version {
        Some(
            "table '"@ + pin.table_key + "' manifest pin changed from "@ + decimal(
                pin.expected_version as nat,
            ) + " to "@ + (decimal(pinned as nat)
                + " while its merge effect remained pending"@),
        )
    } else {
        match (target, fork) {
            (None, None) => Some(
                "existing target ref for table '"@ + pin.table_key
                    + "' disappeared while BranchMerge recovery was pending"@,
            ),
            (Some(found), Some(source)) => if found.parent_version != Some(source) {
                Some(
                    "first-touch target ref for table '"@ + pin.table_key + "' was forked at "@
                        + version_text(found.parent_version) + ", expected exact source version "@
                        + decimal(source as nat),
                )
            } else if confirmed is Some && confirmed != Some(found.branch_identifier@) {
                Some(
                    "first-touch target ref identity for table '"@ + pin.table_key
                        + "' differs from its confirmed merge effect"@,
                )
            } else {
                None
            },
            _ => None,
        }
    }
}

/// Finds why nobody may act on the target branch of a merged table.
fn find_ref_hazard(
    pin: &SidecarTablePin,
    effect: &RecoveryBranchMergeEffect,
    pinned: u64,
    target: &Option<TargetRef>,
) -> (hazard: Option<String>)
    ensures
        opt_view(hazard) == ref_hazard(pin@, effect@, pinned, *target),
{
    if pinned != pin.expected_version {
        let from: String = decimal_text(pin.expected_version);
        let digits: String = decimal_text(pinned);
        let to: String = crate::text::cat2(
            digits.as_str(),
            " while its merge effect remained pending",
        );
        return Some(
            cat6(
                "table '",
                pin.table_key.as_str(),
                "' manifest pin changed from ",
                from.as_str(),
                " to ",
                to.as_str(),
            ),
        );
    }
    match (target, effect.kind.source_fork_version()) {
        (None, None) => Some(
            cat3(
                "existing target ref for table '",
                pin.table_key.as_str(),
                "' disappeared while BranchMerge recovery was pending",
            ),
        ),
        (Some(found), Some(source)) => {
            if found.parent_version != Some(source) {
                let actual: String = version_to_text(found.parent_version);
                let expected: String = decimal_text(source);
                return Some(
                    cat6(
                        "first-touch target ref for table '",
                        pin.table_key.as_str(),
                        "' was forked at ",
                        actual.as_str(),
                        ", expected exact source version ",
                        expected.as_str(),
                    ),
                );
            }
            if let Some(confirmed) = effect.kind.confirmed_branch_identifier() {
                if !found.branch_identifier.same(confirmed) {
                    return Some(
                        cat3(
                            "first-touch target ref identity for table '",
                            pin.table_key.as_str(),
                            "' differs from its confirmed merge effect",
                        ),
                    );
                }
            }
            None
        },
        _ => None,
    }
}

/// What the history of a target branch proves of a planned chain. A branch that is
/// not there holds nothing of it.
pub open spec fn chain_proof(
    pin: SidecarTablePinModel,
    planned: Seq<StagedTransactionIdentityModel>,
    pinned: u64,
    target: Option<TargetRef>,
) -> Result<BranchMergeMultiCommitProofModel, OmniErrorModel> {
    match target {
        Some(found) => merge_proof(
            found.head.history,
            found.head.version,
            planned,
            pinned,
            pin.table_key,
        ),
        None => Ok(
            BranchMergeMultiCommitProofModel {
                effect_ownership: EffectOwnership::Absent,
                full_effect_at_head: false,
                unsafe_reason: None,
            },
        ),
    }
}

/// The first of two reasons, if there is one.
pub open spec fn first_reason(first: Option<Seq<char>>, second: Option<Seq<char>>) -> Option<
    Seq<char>,
> {
    if first is Some {
        first
    } else {
        second
    }
}

/// What a table shows whose effect commits data, with `proven` proved of its chain.
pub open spec fn data_table(
    payload: RecoveryProtocolV4Model,
    pin: SidecarTablePinModel,
    effect: RecoveryBranchMergeEffectModel,
    entry: Option<SnapshotEntryModel>,
    target: Option<TargetRef>,
    confirmed_version: Option<u64>,
    proven: BranchMergeMultiCommitProofModel,
) -> MergedTableModel {
    let pinned = pinned_version(entry);
    let head = match target {
        Some(found) => found.head.version,
        None => pinned,
    };
    let behind = if head < pin.expected_version {
        Some(
            "table '"@ + pin.table_key + "' HEAD "@ + decimal(head as nat)
                + " is behind prepared merge pin "@ + decimal(pin.expected_version as nat),
        )
    } else {
        None
    };
    let moved = head > pin.expected_version;
    let confirmed = payload.effect_phase == RecoveryEffectPhase::EffectsConfirmed;
    let complete = confirmed && proven.full_effect_at_head && confirmed_version == Some(head)
        && pin.confirmed_version == Some(head);
    MergedTableModel {
        state: ClassifiedTable {
            classification: if complete {
                TableClassification::RolledPastExpected
            } else if moved {
                TableClassification::IncompletePhaseB
            } else {
                TableClassification::NoMovement
            },
            manifest_pinned: pinned,
            lance_head: head,
            effect_ownership: proven.effect_ownership,
            unpublished_fork: named_branch(pin.table_branch) is Some && pinned_branch(entry)
                != Some(pin.table_branch),
        },
        hazard: first_reason(
            ref_hazard(pin, effect, pinned, target),
            first_reason(behind, proven.unsafe_reason),
        ),
        mismatch: if confirmed && !complete && proven.effect_ownership
            != EffectOwnership::OwnCompensatedAtHead {
            Some(
                "confirmed multi-commit effect '"@ + pin.table_key + "' expected HEAD "@
                    + version_text(confirmed_version) + ", observed "@ + decimal(head as nat),
            )
        } else {
            None
        },
        physical: (target is Some && effect.kind.fork_version() is Some) || moved,
        moved,
        complete,
    }
}

/// What a table shows whose effect is a fork and nothing else.
pub open spec fn ref_only_table(
    payload: RecoveryProtocolV4Model,
    pin: SidecarTablePinModel,
    effect: RecoveryBranchMergeEffectModel,
    entry: Option<SnapshotEntryModel>,
    target: Option<TargetRef>,
    source_version: u64,
) -> MergedTableModel {
    let pinned = pinned_version(entry);
    let observed = match target {
        Some(found) => Some(found.head.version),
        None => None,
    };
    let confirmed = payload.effect_phase == RecoveryEffectPhase::EffectsConfirmed;
    let complete = confirmed && observed == Some(source_version) && pin.confirmed_version == Some(
        source_version,
    );
    MergedTableModel {
        state: ClassifiedTable {
            classification: if complete {
                TableClassification::RolledPastExpected
            } else if target is Some {
                TableClassification::IncompletePhaseB
            } else {
                TableClassification::NoMovement
            },
            manifest_pinned: pinned,
            lance_head: pinned,
            effect_ownership: EffectOwnership::Absent,
            unpublished_fork: named_branch(pin.table_branch) is Some && pinned_branch(entry)
                != Some(pin.table_branch),
        },
        hazard: ref_hazard(pin, effect, pinned, target),
        mismatch: if confirmed && !complete {
            Some(
                "confirmed ref-only effect '"@ + pin.table_key + "' expected exact fork version "@
                    + decimal(source_version as nat) + ", observed "@ + version_text(observed),
            )
        } else {
            None
        },
        physical: target is Some && effect.kind.fork_version() is Some,
        moved: false,
        complete,
    }
}

/// What one table of a branch merge shows, or why it cannot be looked at.
#[verifier::opaque]
pub open spec fn merged_table(
    snapshot: SnapshotModel,
    payload: RecoveryProtocolV4Model,
    pin: SidecarTablePinModel,
    target: Option<TargetRef>,
) -> Result<MergedTableModel, OmniErrorModel> {
    let effect = merged_effect(payload, pin);
    match bound_entry(snapshot, pin.identity, pin.table_key) {
        Err(error) => Err(error),
        Ok(entry) => match effect.kind {
            RecoveryBranchMergeEffectKindModel::MultiCommitHead {
                planned_transactions,
                confirmed_version,
                ..
            } => match chain_proof(pin, planned_transactions, pinned_version(entry), target) {
                Err(error) => Err(error),
                Ok(proven) => Ok(
                    data_table(payload, pin, effect, entry, target, confirmed_version, proven),
                ),
            },
            RecoveryBranchMergeEffectKindModel::RefOnlyFork { source_version, .. } => Ok(
                ref_only_table(payload, pin, effect, entry, target, source_version),
            ),
        },
    }
}

/// Proves what the history of a target branch holds of a planned chain.
fn prove_chain(
    pin: &SidecarTablePin,
    planned: &Vec<StagedTransactionIdentity>,
    pinned: u64,
    target: &Option<TargetRef>,
) -> (result: Result<BranchMergeMultiCommitProof, OmniError>)
    requires
        planned.len() > 0,
    ensures
        match chain_proof(pin@, views(planned@), pinned, *target) {
            Ok(proven) => result is Ok && result->Ok_0@ == proven,
            Err(error) => result is Err && result->Err_0@ == error,
        },
{
    match target {
        Some(found) => prove_branch_merge_multi_commit_effect(
            &found.head.history,
            found.head.version,
            planned,
            pinned,
            pin.table_key.as_str(),
        ),
        None => Ok(
            BranchMergeMultiCommitProof {
                effect_ownership: EffectOwnership::Absent,
                full_effect_at_head: false,
                unsafe_reason: None,
            },
        ),
    }
}

/// Looks at a table whose effect commits data.
fn look_at_data_table(
    payload: &RecoveryProtocolV4,
    pin: &SidecarTablePin,
    effect: &RecoveryBranchMergeEffect,
    entry: Option<&SnapshotEntry>,
    target: &Option<TargetRef>,
    confirmed_version: Option<u64>,
    proven: BranchMergeMultiCommitProof,
) -> (table: MergedTable)
    ensures
        table@ == data_table(
            payload@,
            pin@,
            effect@,
            opt_view(entry),
            *target,
            confirmed_version,
            proven@,
        ),
{
    let (pinned, elsewhere): (u64, bool) = match entry {
        Some(found) => (
            found.table.table_version,
            !same_opt(&found.table.table_branch, &pin.table_branch),
        ),
        None => (0, true),
    };
    let head: u64 = match target {
        Some(found) => found.head.version,
        None => pinned,
    };
    let moved: bool = head > pin.expected_version;
    let confirmed: bool = payload.effect_phase == RecoveryEffectPhase::EffectsConfirmed;
    let complete: bool = confirmed && proven.full_effect_at_head && confirmed_version == Some(head)
        && pin.confirmed_version == Some(head);
    let hazard: Option<String> = match find_ref_hazard(pin, effect, pinned, target) {
        Some(reason) => Some(reason),
        None => if head < pin.expected_version {
            let head_text: String = decimal_text(head);
            let expected_text: String = decimal_text(pin.expected_version);
            Some(
                cat6(
                    "table '",
                    pin.table_key.as_str(),
                    "' HEAD ",
                    head_text.as_str(),
                    " is behind prepared merge pin ",
                    expected_text.as_str(),
                ),
            )
        } else {
            proven.unsafe_reason
        },
    };
    let mismatch: Option<String> = if confirmed && !complete && proven.effect_ownership
        != EffectOwnership::OwnCompensatedAtHead {
        let expected_text: String = version_to_text(confirmed_version);
        let head_text: String = decimal_text(head);
        Some(
            cat6(
                "confirmed multi-commit effect '",
                pin.table_key.as_str(),
                "' expected HEAD ",
                expected_text.as_str(),
                ", observed ",
                head_text.as_str(),
            ),
        )
    } else {
        None
    };
    MergedTable {
        state: ClassifiedTable {
            classification: if complete {
                TableClassification::RolledPastExpected
            } else if moved {
                TableClassification::IncompletePhaseB
            } else {
                TableClassification::NoMovement
            },
            manifest_pinned: pinned,
            lance_head: head,
            effect_ownership: proven.effect_ownership,
            unpublished_fork: names_branch(&pin.table_branch) && elsewhere,
        },
        hazard,
        mismatch,
        physical: (target.is_some() && effect.kind.source_fork_version().is_some()) || moved,
        moved,
        complete,
    }
}

/// Looks at a table whose effect is a fork and nothing else.
fn look_at_ref_only_table(
    payload: &RecoveryProtocolV4,
    pin: &SidecarTablePin,
    effect: &RecoveryBranchMergeEffect,
    entry: Option<&SnapshotEntry>,
    target: &Option<TargetRef>,
    source_version: u64,
) -> (table: MergedTable)
    ensures
        table@ == ref_only_table(
            payload@,
            pin@,
            effect@,
            opt_view(entry),
            *target,
            source_version,
        ),
{
    let (pinned, elsewhere): (u64, bool) = match entry {
        Some(found) => (
            found.table.table_version,
            !same_opt(&found.table.table_branch, &pin.table_branch),
        ),
        None => (0, true),
    };
    let observed: Option<u64> = match target {
        Some(found) => Some(found.head.version),
        None => None,
    };
    let confirmed: bool = payload.effect_phase == RecoveryEffectPhase::EffectsConfirmed;
    let complete: bool = confirmed && observed == Some(source_version) && pin.confirmed_version
        == Some(source_version);
    let hazard: Option<String> = find_ref_hazard(pin, effect, pinned, target);
    let mismatch: Option<String> = if confirmed && !complete {
        let source_text: String = decimal_text(source_version);
        let observed_text: String = version_to_text(observed);
        Some(
            cat6(
                "confirmed ref-only effect '",
                pin.table_key.as_str(),
                "' expected exact fork version ",
                source_text.as_str(),
                ", observed ",
                observed_text.as_str(),
            ),
        )
    } else {
        None
    };
    MergedTable {
        state: ClassifiedTable {
            classification: if complete {
                TableClassification::RolledPastExpected
            } else if target.is_some() {
                TableClassification::IncompletePhaseB
            } else {
                TableClassification::NoMovement
            },
            manifest_pinned: pinned,
            lance_head: pinned,
            effect_ownership: EffectOwnership::Absent,
            unpublished_fork: names_branch(&pin.table_branch) && elsewhere,
        },
        hazard,
        mismatch,
        physical: target.is_some() && effect.kind.source_fork_version().is_some(),
        moved: false,
        complete,
    }
}

/// Looks at one table of a branch merge.
fn look_at_merged_table(
    snapshot: &Snapshot,
    payload: &RecoveryProtocolV4,
    pin: &SidecarTablePin,
    target: &Option<TargetRef>,
) -> (result: Result<MergedTable, OmniError>)
    requires
        identities::<RecoveryBranchMergeEffect>(payload@.effects).contains(pin.identity),
        chains_present(payload@.effects),
    ensures
        match merged_table(snapshot@, payload@, pin@, *target) {
            Ok(table) => result is Ok && result->Ok_0@ == table,
            Err(error) => result is Err && result->Err_0@ == error,
        },
{
    proof {
        reveal(merged_table);
    }
    let at: usize = match place_of(&payload.effects, pin.identity) {
        Some(at) => at,
        None => {
            assert(false);
            0
        },
    };
    let effect: &RecoveryBranchMergeEffect = &payload.effects[at];
    assert(merged_effect(payload@, pin@) == effect@);
    assert(payload@.effects[at as int] == effect@);
    let entry: Option<&SnapshotEntry> = match snapshot_entry_for_pin(snapshot, pin) {
        Ok(entry) => entry,
        Err(error) => {
            return Err(error);
        },
    };
    let pinned: u64 = match entry {
        Some(found) => found.table.table_version,
        None => 0,
    };
    match &effect.kind {
        RecoveryBranchMergeEffectKind::MultiCommitHead {
            planned_transactions,
            confirmed_version,
            ..
        } => {
            let proven: BranchMergeMultiCommitProof = match prove_chain(
                pin,
                planned_transactions,
                pinned,
                target,
            ) {
                Ok(proven) => proven,
                Err(error) => {
                    return Err(error);
                },
            };
            Ok(
                look_at_data_table(
                    payload,
                    pin,
                    effect,
                    entry,
                    target,
                    *confirmed_version,
                    proven,
                ),
            )
        },
        RecoveryBranchMergeEffectKind::RefOnlyFork { source_version, .. } => Ok(
            look_at_ref_only_table(payload, pin, effect, entry, target, *source_version),
        ),
    }
}

/// What the tables of a branch merge show together.
#[derive(Debug, PartialEq, Eq)]
pub struct MergeObservation {
    pub states: Vec<ClassifiedTable>,
    /// Why nobody may act on them, if so.
    pub hazard: Option<String>,
    /// How they differ from what the merge confirmed, if they do.
    pub mismatch: Option<String>,
    /// Whether the merge left anything physical.
    pub physical: bool,
    /// Whether a head moved past what the merge started from.
    pub moved: bool,
    /// Whether all of them are exactly as the merge confirmed.
    pub complete: bool,
}

/// The tables of a branch merge, one by one.
pub open spec fn merged_tables(
    snapshot: SnapshotModel,
    payload: RecoveryProtocolV4Model,
    pins: Seq<SidecarTablePinModel>,
    targets: Seq<Option<TargetRef>>,
) -> Seq<Result<MergedTableModel, OmniErrorModel>> {
    Seq::new(pins.len(), |i: int| merged_table(snapshot, payload, pins[i], targets[i]))
}

/// The errors among the tables of a branch merge.
pub open spec fn merge_faults(tables: Seq<Result<MergedTableModel, OmniErrorModel>>) -> Seq<
    Option<OmniErrorModel>,
> {
    Seq::new(
        tables.len(),
        |i: int|
            match tables[i] {
                Ok(_) => None,
                Err(error) => Some(error),
            },
    )
}

/// The hazards among the tables of a branch merge.
pub open spec fn merge_hazards(tables: Seq<Result<MergedTableModel, OmniErrorModel>>) -> Seq<
    Option<Seq<char>>,
> {
    Seq::new(tables.len(), |i: int| tables[i]->Ok_0.hazard)
}

/// The mismatches among the tables of a branch merge.
pub open spec fn merge_mismatches(tables: Seq<Result<MergedTableModel, OmniErrorModel>>) -> Seq<
    Option<Seq<char>>,
> {
    Seq::new(tables.len(), |i: int| tables[i]->Ok_0.mismatch)
}

/// What the tables of a branch merge show together.
pub open spec fn observes(
    observation: MergeObservation,
    payload: RecoveryProtocolV4Model,
    tables: Seq<Result<MergedTableModel, OmniErrorModel>>,
) -> bool {
    &&& observation.states@ == Seq::new(tables.len(), |i: int| tables[i]->Ok_0.state)
    &&& opt_view(observation.hazard) == first_defect(merge_hazards(tables))
    &&& opt_view(observation.mismatch) == first_defect(merge_mismatches(tables))
    &&& observation.physical == exists|i: int|
        0 <= i < tables.len() && (#[trigger] tables[i])->Ok_0.physical
    &&& observation.moved == exists|i: int|
        0 <= i < tables.len() && (#[trigger] tables[i])->Ok_0.moved
    &&& observation.complete == (payload.effect_phase == RecoveryEffectPhase::EffectsConfirmed
        && forall|i: int| 0 <= i < tables.len() ==> (#[trigger] tables[i])->Ok_0.complete)
}

/// Looks at the tables of a branch merge.
pub fn observe_merge(
    snapshot: &Snapshot,
    sidecar: &RecoverySidecar,
    payload: &RecoveryProtocolV4,
    targets: &Vec<Option<TargetRef>>,
) -> (result: Result<MergeObservation, OmniError>)
    requires
        targets.len() == sidecar.tables.len(),
        within(
            identities::<SidecarTablePin>(sidecar@.tables),
            identities::<RecoveryBranchMergeEffect>(payload@.effects),
        ),
        chains_present(payload@.effects),
    ensures
        ({
            let tables = merged_tables(snapshot@, payload@, sidecar@.tables, targets@);
            match first_defect(merge_faults(tables)) {
                Some(error) => result is Err && result->Err_0@ == error,
                None => result is Ok && observes(result->Ok_0, payload@, tables),
            }
        }),
{
    let pins: &Vec<SidecarTablePin> = &sidecar.tables;
    let ghost models = sidecar@.tables;
    let ghost tables = merged_tables(snapshot@, payload@, models, targets@);
    let ghost faults = merge_faults(tables);
    let ghost hazards = merge_hazards(tables);
    let ghost mismatches = merge_mismatches(tables);
    let mut states: Vec<ClassifiedTable> = Vec::new();
    let mut hazard: Option<String> = None;
    let mut mismatch: Option<String> = None;
    let mut physical: bool = false;
    let mut moved: bool = false;
    let mut complete: bool = payload.effect_phase == RecoveryEffectPhase::EffectsConfirmed;
    let mut i: usize = 0;
    assert(hazards.subrange(0, 0) =~= Seq::empty());
    assert(mismatches.subrange(0, 0) =~= Seq::empty());
    while i < pins.len()
        invariant
            i <= pins.len(),
            *pins == sidecar.tables,
            models == views(pins@),
            targets.len() == pins.len(),
            within(
                identities::<SidecarTablePin>(models),
                identities::<RecoveryBranchMergeEffect>(payload@.effects),
            ),
            chains_present(payload@.effects),
            tables == merged_tables(snapshot@, payload@, models, targets@),
            faults == merge_faults(tables),
            hazards == merge_hazards(tables),
            mismatches == merge_mismatches(tables),
            forall|j: int| 0 <= j < i ==> faults[j] is None,
            states.len() == i,
            forall|j: int| 0 <= j < i ==> #[trigger] states@[j] == tables[j]->Ok_0.state,
            opt_view(hazard) == first_defect(hazards.subrange(0, i as int)),
            opt_view(mismatch) == first_defect(mismatches.subrange(0, i as int)),
            physical == (exists|j: int| 0 <= j < i && (#[trigger] tables[j])->Ok_0.physical),
            moved == (exists|j: int| 0 <= j < i && (#[trigger] tables[j])->Ok_0.moved),
            complete == (payload.effect_phase == RecoveryEffectPhase::EffectsConfirmed && (forall|
                j: int,
            |
                0 <= j < i ==> (#[trigger] tables[j])->Ok_0.complete)),
        decreases pins.len() - i,
    {
        let ghost n = i as int;
        assert(models[n] == pins@[n]@);
        assert(identities::<SidecarTablePin>(models)[n] == pins@[n].identity);
        assert(tables[n] == merged_table(snapshot@, payload@, pins@[n]@, targets@[n]));
        let table: MergedTable = match look_at_merged_table(
            snapshot,
            payload,
            &pins[i],
            &targets[i],
        ) {
            Ok(table) => table,
            Err(error) => {
                proof {
                    assert(faults[n] == Some(error@));
                    lemma_first_defect(faults, n);
                }
                return Err(error);
            },
        };
        assert(tables[n]->Ok_0 == table@);
        proof {
            assert(faults[n] is None);
            assert(hazards[n] == opt_view(table.hazard));
            assert(mismatches[n] == opt_view(table.mismatch));
            assert(hazards.subrange(0, n + 1) =~= hazards.subrange(0, n).push(hazards[n]));
            assert(mismatches.subrange(0, n + 1) =~= mismatches.subrange(0, n).push(
                mismatches[n],
            ));
            lemma_first_defect_push(hazards.subrange(0, n), hazards[n]);
            lemma_first_defect_push(mismatches.subrange(0, n), mismatches[n]);
        }
        states.push(table.state);
        physical = physical || table.physical;
        moved = moved || table.moved;
        complete = complete && table.complete;
        if hazard.is_none() {
            hazard = table.hazard;
        }
        if mismatch.is_none() {
            mismatch = table.mismatch;
        }
        i += 1;
    }
    proof {
        lemma_no_defect(faults);
        assert(hazards.subrange(0, hazards.len() as int) =~= hazards);
        assert(mismatches.subrange(0, mismatches.len() as int) =~= mismatches);
        assert(states@ =~= Seq::new(tables.len(), |i: int| tables[i]->Ok_0.state));
    }
    Ok(MergeObservation { states, hazard, mismatch, physical, moved, complete })
}

/// The next step of a branch merge, from what its tables show.
pub open spec fn merge_step(
    sidecar: RecoverySidecarModel,
    payload: RecoveryProtocolV4Model,
    hazard: Option<Seq<char>>,
    mismatch: Option<Seq<char>>,
    physical: bool,
    moved: bool,
    complete: bool,
    live: Option<RecoveryAuthorityTokenModel>,
    mode: RecoveryMode,
) -> RecoveryStepModel {
    if hazard is Some {
        refuse(
            mode,
            "BranchMerge recovery sidecar '"@ + sidecar.operation_id
                + "' observed foreign or unverifiable physical state: "@ + hazard->0,
        )
    } else if mismatch is Some {
        refuse(
            mode,
            "BranchMerge recovery sidecar '"@ + sidecar.operation_id
                + "' no longer matches its exact confirmed effects: "@ + mismatch->0,
        )
    } else {
        match live {
            None => RecoveryStepModel::ReadLiveAuthority,
            Some(authority) => if authority.branch_identifier
                != payload.authority.branch_identifier && physical {
                refuse(
                    mode,
                    "BranchMerge recovery sidecar '"@ + sidecar.operation_id
                        + "' targets a branch incarnation that was deleted and recreated; refusing to act through the reused name"@,
                )
            } else if authority == payload.authority && complete {
                RecoveryStepModel::RollForward
            } else if moved {
                roll_back(mode)
            } else {
                match mode {
                    RecoveryMode::RollForwardOnly => RecoveryStepModel::Defer,
                    RecoveryMode::Full => RecoveryStepModel::DiscardForks,
                }
            },
        }
    }
}

/// Decides the next step of a branch merge, once no fixed outcome of it is visible.
/// `live` is the live authority of its branch, once read. Where no head moved, the
/// forks are removed without a rollback commit: the graph is then as it was before
/// the merge, and its lineage too.
pub fn process_branch_merge_sidecar_v4(
    sidecar: &RecoverySidecar,
    payload: &RecoveryProtocolV4,
    observation: &MergeObservation,
    live: &Option<RecoveryAuthorityToken>,
    mode: RecoveryMode,
) -> (step: RecoveryStep)
    ensures
        step@ == merge_step(
            sidecar@,
            payload@,
            opt_view(observation.hazard),
            opt_view(observation.mismatch),
            observation.physical,
            observation.moved,
            observation.complete,
            opt_view(*live),
            mode,
        ),
{
    let id: &str = sidecar.operation_id.as_str();
    if let Some(reason) = &observation.hazard {
        let message: String = cat4(
            "BranchMerge recovery sidecar '",
            id,
            "' observed foreign or unverifiable physical state: ",
            reason.as_str(),
        );
        return refuse_step(mode, message.as_str());
    }
    if let Some(reason) = &observation.mismatch {
        let message: String = cat4(
            "BranchMerge recovery sidecar '",
            id,
            "' no longer matches its exact confirmed effects: ",
            reason.as_str(),
        );
        return refuse_step(mode, message.as_str());
    }
    let authority: &RecoveryAuthorityToken = match live {
        Some(authority) => authority,
        None => {
            return RecoveryStep::ReadLiveAuthority;
        },
    };
    if !authority.branch_identifier.same(&payload.authority.branch_identifier)
        && observation.physical {
        let message: String = cat3(
            "BranchMerge recovery sidecar '",
            id,
            "' targets a branch incarnation that was deleted and recreated; refusing to act through the reused name",
        );
        return refuse_step(mode, message.as_str());
    }
    if authority.same(&payload.authority) && observation.complete {
        return RecoveryStep::RollForward;
    }
    if observation.moved {
        return roll_back_step(mode);
    }
    match mode {
        RecoveryMode::RollForwardOnly => RecoveryStep::Defer,
        RecoveryMode::Full => RecoveryStep::DiscardForks,
    }
}

} // verus!
