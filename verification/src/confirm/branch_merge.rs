//! The confirmation of branch merges.

use vstd::prelude::*;

use crate::confirm::common::{
    about, confirm_pins, confirm_slots, confirmed_pins, confirmed_slots, confirms, error_about,
    update_of,
};
use crate::error::{internal, OmniError, OmniErrorModel};
use crate::history::{
    merge_proof, prove_branch_merge_multi_commit_effect, BranchMergeMultiCommitProof,
    EffectOwnership,
};
use crate::identity::{IdentityMap, TableIdentity};
use crate::lookup::{
    find_by_identity, identities, identities_distinct, identities_equal, place_of, same_elements,
    within,
};
use crate::process::indices::TargetRef;
use crate::process::merge::chains_present;
use crate::publish::{SubTableUpdate, SubTableUpdateModel};
use crate::shape::defect::{first_defect, lemma_first_defect, lemma_no_defect};
use crate::shape::sound::lemma_sound_branch_merge;
use crate::shape::validate::{shape_fault, validate_sidecar_shape};
use crate::sidecar::{
    BranchIdentifier, BranchIdentifierModel, RecoveryBranchMergeEffect,
    RecoveryBranchMergeEffectKind, RecoveryBranchMergeEffectKindModel,
    RecoveryBranchMergeEffectModel, RecoveryEffectPhase, RecoveryManifestDeltaModel,
    RecoveryProtocolV4, RecoveryProtocolV4Model, RecoverySidecar, RecoverySidecarModel,
    RecoveryTableUpdateSlot, RecoveryTableUpdateSlotModel, SidecarTablePin, SidecarTablePinModel,
    StagedTransactionIdentity, StagedTransactionIdentityModel,
};
use crate::store::{sidecar_uri, uri_of};
use crate::text::{
    cat3, cat4, cat6, cat7, decimal, decimal_text, name_text, name_to_text, version_text,
    version_to_text,
};
use crate::value::{opt_view, same_opt, views, Replicate, Same};

verus! {

/// Whether an effect forks the target branch of a lifetime.
pub open spec fn forks(effects: Seq<RecoveryBranchMergeEffectModel>, identity: TableIdentity) -> bool {
    exists|i: int|
        0 <= i < effects.len() && (#[trigger] effects[i]).identity == identity
            && effects[i].kind.fork_version() is Some
}

/// Whether the branches that were made are exactly those that the merge forks.
pub open spec fn refs_match(
    effects: Seq<RecoveryBranchMergeEffectModel>,
    refs: Map<TableIdentity, BranchIdentifierModel>,
) -> bool {
    forall|identity: TableIdentity|
        #[trigger] refs.contains_key(identity) <==> forks(effects, identity)
}

/// Whether an effect forks the target branch of a lifetime.
fn is_forked(effects: &Vec<RecoveryBranchMergeEffect>, identity: TableIdentity) -> (answer: bool)
    ensures
        answer == forks(views(effects@), identity),
{
    let ghost models = views(effects@);
    let mut i: usize = 0;
    while i < effects.len()
        invariant
            i <= effects.len(),
            models == views(effects@),
            forall|j: int|
                0 <= j < i ==> !((#[trigger] models[j]).identity == identity
                    && models[j].kind.fork_version() is Some),
        decreases effects.len() - i,
    {
        assert(models[i as int] == effects@[i as int]@);
        if effects[i].identity == identity && effects[i].kind.source_fork_version().is_some() {
            return true;
        }
        i += 1;
    }
    false
}

/// Whether the branches that were made are exactly those that the merge forks.
fn do_refs_match(
    effects: &Vec<RecoveryBranchMergeEffect>,
    refs: &IdentityMap<BranchIdentifier>,
) -> (answer: bool)
    ensures
        answer == refs_match(views(effects@), refs@),
{
    let ghost models = views(effects@);
    let keys: Vec<TableIdentity> = refs.keys();
    let mut k: usize = 0;
    while k < keys.len()
        invariant
            k <= keys.len(),
            models == views(effects@),
            forall|identity: TableIdentity|
                #[trigger] keys@.contains(identity) <==> refs@.contains_key(identity),
            forall|j: int| 0 <= j < k ==> forks(models, #[trigger] keys@[j]),
        decreases keys.len() - k,
    {
        if !is_forked(effects, keys[k]) {
            proof {
                assert(keys@.contains(keys@[k as int]));
                assert(refs@.contains_key(keys@[k as int]));
            }
            return false;
        }
        k += 1;
    }
    let mut i: usize = 0;
    while i < effects.len()
        invariant
            i <= effects.len(),
            models == views(effects@),
            forall|j: int|
                0 <= j < i && (#[trigger] models[j]).kind.fork_version() is Some
                    ==> refs@.contains_key(models[j].identity),
        decreases effects.len() - i,
    {
        assert(models[i as int] == effects@[i as int]@);
        if effects[i].kind.source_fork_version().is_some() && refs.get(
            effects[i].identity,
        ).is_none() {
            proof {
                assert(forks(models, models[i as int].identity));
                assert(!refs@.contains_key(models[i as int].identity));
            }
            return false;
        }
        i += 1;
    }
    proof {
        assert forall|identity: TableIdentity|
            #[trigger] refs@.contains_key(identity) <==> forks(models, identity) by {
            if refs@.contains_key(identity) {
                assert(keys@.contains(identity));
            }
        }
    }
    true
}

/// Why an output is not as it was planned, if so.
pub open spec fn slot_fault(
    operation_id: Seq<char>,
    slot: RecoveryTableUpdateSlotModel,
    update: SubTableUpdateModel,
) -> Option<OmniErrorModel> {
    if update.table_key != slot.table_key || update.table_branch != slot.table_branch {
        Some(
            about(
                "BranchMerge"@,
                operation_id,
                "' table '"@ + slot.table_key + "' achieved output branch "@ + name_text(
                    update.table_branch,
                ) + ", planned "@ + name_text(slot.table_branch),
            ),
        )
    } else {
        None
    }
}

/// Why the outputs of a merge are not as they were planned.
pub open spec fn slot_faults(
    operation_id: Seq<char>,
    slots: Seq<RecoveryTableUpdateSlotModel>,
    updates: Seq<SubTableUpdateModel>,
) -> Seq<Option<OmniErrorModel>> {
    Seq::new(
        slots.len(),
        |i: int|
            slot_fault(operation_id, slots[i], update_of(updates, slots[i].identity)->0),
    )
}

/// The error about one table of a merge.
pub open spec fn table_error(
    operation_id: Seq<char>,
    alias: Seq<char>,
    reason: Seq<char>,
) -> OmniErrorModel {
    about("BranchMerge"@, operation_id, "' table '"@ + alias + reason)
}

/// Why the target branch of a merged table is not as it was planned, if so.
pub open spec fn ref_fault(
    operation_id: Seq<char>,
    effect: RecoveryBranchMergeEffectModel,
    update: SubTableUpdateModel,
    refs: Map<TableIdentity, BranchIdentifierModel>,
    found: TargetRef,
) -> Option<OmniErrorModel> {
    let alias = effect.table_key;
    if found.head.version != update.table_version {
        Some(
            table_error(
                operation_id,
                alias,
                "' observed HEAD "@ + decimal(found.head.version as nat)
                    + ", achieved update says "@ + decimal(update.table_version as nat),
            ),
        )
    } else {
        match effect.kind.fork_version() {
            None => None,
            Some(source) => if found.parent_version != Some(source) {
                Some(
                    table_error(
                        operation_id,
                        alias,
                        "' target ref parent is "@ + version_text(found.parent_version)
                            + ", exact fork version is "@ + decimal(source as nat),
                    ),
                )
            } else if found.branch_identifier@ != refs[effect.identity] {
                Some(
                    table_error(
                        operation_id,
                        alias,
                        "' target ref identity differs from the writer's achieved identity"@,
                    ),
                )
            } else {
                None
            },
        }
    }
}

/// Why a table that gets data does not hold its whole chain, if so.
pub open spec fn chain_fault(
    operation_id: Seq<char>,
    pin: SidecarTablePinModel,
    alias: Seq<char>,
    planned: Seq<StagedTransactionIdentityModel>,
    update: SubTableUpdateModel,
    found: TargetRef,
) -> Option<OmniErrorModel> {
    let last = planned.last().read_version;
    if last == u64::MAX {
        Some(
            about(
                "BranchMerge"@,
                operation_id,
                "' planned transaction chain for '"@ + alias
                    + "' overflows its final output version"@,
            ),
        )
    } else if update.table_version < last + 1 {
        Some(
            about(
                "BranchMerge"@,
                operation_id,
                "' multi-commit table '"@ + alias
                    + "' stopped before its complete planned transaction chain ("@ + decimal(
                    update.table_version as nat,
                ) + " < "@ + decimal((last + 1) as nat) + ")"@,
            ),
        )
    } else {
        match merge_proof(
            found.head.history,
            found.head.version,
            planned,
            pin.expected_version,
            alias,
        ) {
            Err(error) => Some(error),
            Ok(proven) => if proven.effect_ownership != EffectOwnership::OwnAtHead
                || !proven.full_effect_at_head || proven.unsafe_reason is Some {
                Some(
                    about(
                        "BranchMerge"@,
                        operation_id,
                        "' cannot confirm unproven transaction chain for table '"@ + alias
                            + "': "@ + match proven.unsafe_reason {
                            Some(reason) => reason,
                            None => "the full exact effect is not at HEAD"@,
                        },
                    ),
                )
            } else {
                None
            },
        }
    }
}

/// Why an effect of a merge is not as it was planned, if so.
pub open spec fn merge_effect_fault(
    operation_id: Seq<char>,
    pin: SidecarTablePinModel,
    effect: RecoveryBranchMergeEffectModel,
    update: SubTableUpdateModel,
    refs: Map<TableIdentity, BranchIdentifierModel>,
    target: Option<TargetRef>,
) -> Option<OmniErrorModel> {
    let alias = effect.table_key;
    if pin.table_key != alias || update.table_key != alias {
        Some(
            about(
                "BranchMerge"@,
                operation_id,
                "' identity "@ + effect.identity.text()
                    + " has inconsistent diagnostic aliases"@,
            ),
        )
    } else {
        match target {
            None => Some(
                about(
                    "BranchMerge"@,
                    operation_id,
                    "' cannot confirm missing target ref for table '"@ + alias + "'"@,
                ),
            ),
            Some(found) => if ref_fault(operation_id, effect, update, refs, found) is Some {
                ref_fault(operation_id, effect, update, refs, found)
            } else {
                match effect.kind {
                    RecoveryBranchMergeEffectKindModel::MultiCommitHead {
                        planned_transactions,
                        ..
                    } => chain_fault(
                        operation_id,
                        pin,
                        alias,
                        planned_transactions,
                        update,
                        found,
                    ),
                    RecoveryBranchMergeEffectKindModel::RefOnlyFork { source_version, .. } => if update.table_version
                        != source_version {
                        Some(
                            about(
                                "BranchMerge"@,
                                operation_id,
                                "' ref-only table '"@ + alias + "' achieved version "@ + decimal(
                                    update.table_version as nat,
                                ) + ", exact fork version "@ + decimal(source_version as nat),
                            ),
                        )
                    } else {
                        None
                    },
                }
            },
        }
    }
}

/// Why the effects of a merge are not as they were planned. `targets` holds what
/// was found of their target branches.
pub open spec fn merge_effect_faults(
    operation_id: Seq<char>,
    pins: Seq<SidecarTablePinModel>,
    effects: Seq<RecoveryBranchMergeEffectModel>,
    updates: Seq<SubTableUpdateModel>,
    refs: Map<TableIdentity, BranchIdentifierModel>,
    targets: Seq<Option<TargetRef>>,
) -> Seq<Option<OmniErrorModel>> {
    Seq::new(
        effects.len(),
        |i: int|
            merge_effect_fault(
                operation_id,
                find_by_identity::<SidecarTablePin>(pins, effects[i].identity)->0,
                effects[i],
                update_of(updates, effects[i].identity)->0,
                refs,
                targets[i],
            ),
    )
}

/// The kind of an effect with the version that was achieved and the branch that was
/// made.
pub open spec fn confirmed_kind(
    kind: RecoveryBranchMergeEffectKindModel,
    version: u64,
    identifier: Option<BranchIdentifierModel>,
) -> RecoveryBranchMergeEffectKindModel {
    match kind {
        RecoveryBranchMergeEffectKindModel::MultiCommitHead {
            source_fork_version,
            planned_transactions,
            ..
        } => RecoveryBranchMergeEffectKindModel::MultiCommitHead {
            source_fork_version,
            planned_transactions,
            confirmed_version: Some(version),
            confirmed_branch_identifier: identifier,
        },
        RecoveryBranchMergeEffectKindModel::RefOnlyFork { source_version, .. } =>
            RecoveryBranchMergeEffectKindModel::RefOnlyFork {
            source_version,
            confirmed_branch_identifier: identifier,
        },
    }
}

/// The effects with the versions that were achieved and the branches that were
/// made.
pub open spec fn confirmed_effects(
    effects: Seq<RecoveryBranchMergeEffectModel>,
    updates: Seq<SubTableUpdateModel>,
    refs: Map<TableIdentity, BranchIdentifierModel>,
) -> Seq<RecoveryBranchMergeEffectModel> {
    Seq::new(
        effects.len(),
        |i: int|
            RecoveryBranchMergeEffectModel {
                kind: confirmed_kind(
                    effects[i].kind,
                    (update_of(updates, effects[i].identity)->0).table_version,
                    if refs.contains_key(effects[i].identity) {
                        Some(refs[effects[i].identity])
                    } else {
                        None
                    },
                ),
                ..effects[i]
            },
    )
}

/// The sidecar of a merge with everything that was achieved.
pub open spec fn merge_confirmed(
    sidecar: RecoverySidecarModel,
    payload: RecoveryProtocolV4Model,
    updates: Seq<SubTableUpdateModel>,
    refs: Map<TableIdentity, BranchIdentifierModel>,
) -> RecoverySidecarModel {
    RecoverySidecarModel {
        tables: confirmed_pins(sidecar.tables, updates),
        protocol_v4: Some(
            RecoveryProtocolV4Model {
                effect_phase: RecoveryEffectPhase::EffectsConfirmed,
                effects: confirmed_effects(payload.effects, updates, refs),
                intended_delta: RecoveryManifestDeltaModel {
                    table_updates: confirmed_slots(
                        payload.intended_delta.table_updates,
                        updates,
                    ),
                    ..payload.intended_delta
                },
                ..payload
            },
        ),
        ..sidecar
    }
}

/// Whether the achieved outputs are those of the whole manifest delta, one each.
pub open spec fn outputs_match(
    slots: Seq<RecoveryTableUpdateSlotModel>,
    updates: Seq<SubTableUpdateModel>,
) -> bool {
    &&& identities::<SubTableUpdate>(updates).no_duplicates()
    &&& same_elements(
        identities::<SubTableUpdate>(updates),
        identities::<RecoveryTableUpdateSlot>(slots),
    )
}

/// The confirmed sidecar of a merge, or why it stays armed.
pub open spec fn merge_confirmation(
    root: Seq<char>,
    sidecar: RecoverySidecarModel,
    updates: Seq<SubTableUpdateModel>,
    refs: Map<TableIdentity, BranchIdentifierModel>,
    targets: Seq<Option<TargetRef>>,
) -> Result<RecoverySidecarModel, OmniErrorModel> {
    let uri = uri_of(root, sidecar.operation_id);
    let id = sidecar.operation_id;
    if shape_fault(uri, sidecar) is Some {
        Err(shape_fault(uri, sidecar)->0)
    } else {
        match sidecar.protocol_v4 {
            None => Err(
                internal(
                    "confirm_branch_merge_sidecar_v9 requires a schema-v9 BranchMerge sidecar"@,
                ),
            ),
            Some(payload) => {
                let slots = payload.intended_delta.table_updates;
                let outputs = slot_faults(id, slots, updates);
                let faults = merge_effect_faults(
                    id,
                    sidecar.tables,
                    payload.effects,
                    updates,
                    refs,
                    targets,
                );
                let confirmed = merge_confirmed(sidecar, payload, updates, refs);
                if payload.effect_phase != RecoveryEffectPhase::Armed {
                    Err(about("BranchMerge"@, id, "' is already EffectsConfirmed"@))
                } else if !outputs_match(slots, updates) {
                    Err(
                        about(
                            "BranchMerge"@,
                            id,
                            "' confirmation updates differ from its complete intended delta"@,
                        ),
                    )
                } else if !refs_match(payload.effects, refs) {
                    Err(
                        about(
                            "BranchMerge"@,
                            id,
                            "' confirmed target-ref set differs from its first-touch effects"@,
                        ),
                    )
                } else if first_defect(outputs) is Some {
                    Err(first_defect(outputs)->0)
                } else if first_defect(faults) is Some {
                    Err(first_defect(faults)->0)
                } else if shape_fault(uri, confirmed) is Some {
                    Err(shape_fault(uri, confirmed)->0)
                } else {
                    Ok(confirmed)
                }
            },
        }
    }
}

/// Checks that every output of a merge is as it was planned.
fn check_slots(
    operation_id: &str,
    slots: &Vec<RecoveryTableUpdateSlot>,
    updates: &Vec<SubTableUpdate>,
) -> (fault: Option<OmniError>)
    requires
        outputs_match(views(slots@), views(updates@)),
    ensures
        opt_view(fault) == first_defect(
            slot_faults(operation_id@, views(slots@), views(updates@)),
        ),
{
    let ghost models = views(slots@);
    let ghost ids = identities::<RecoveryTableUpdateSlot>(models);
    let ghost faults = slot_faults(operation_id@, models, views(updates@));
    let mut i: usize = 0;
    while i < slots.len()
        invariant
            i <= slots.len(),
            models == views(slots@),
            ids == identities::<RecoveryTableUpdateSlot>(models),
            outputs_match(models, views(updates@)),
            faults == slot_faults(operation_id@, models, views(updates@)),
            forall|j: int| 0 <= j < i ==> faults[j] is None,
        decreases slots.len() - i,
    {
        let slot: &RecoveryTableUpdateSlot = &slots[i];
        assert(models[i as int] == slot@);
        assert(ids[i as int] == slot.identity);
        match place_of(updates, slot.identity) {
            Some(u) => {
                let update: &SubTableUpdate = &updates[u];
                if update.table_key != slot.table_key || !same_opt(
                    &update.table_branch,
                    &slot.table_branch,
                ) {
                    let actual: String = name_to_text(&update.table_branch);
                    let planned: String = name_to_text(&slot.table_branch);
                    let rest: String = cat6(
                        "' table '",
                        slot.table_key.as_str(),
                        "' achieved output branch ",
                        actual.as_str(),
                        ", planned ",
                        planned.as_str(),
                    );
                    let error: OmniError = error_about(
                        "BranchMerge",
                        operation_id,
                        rest.as_str(),
                    );
                    proof {
                        assert(faults[i as int] == Some(error@));
                        lemma_first_defect(faults, i as int);
                    }
                    return Some(error);
                }
            },
            None => {
                assert(false);
            },
        }
        i += 1;
    }
    proof {
        lemma_no_defect(faults);
    }
    None
}

/// An error about one table of a merge.
fn error_about_table(operation_id: &str, alias: &str, reason: &str) -> (error: OmniError)
    ensures
        error@ == table_error(operation_id@, alias@, reason@),
{
    let rest: String = cat3("' table '", alias, reason);
    error_about("BranchMerge", operation_id, rest.as_str())
}

/// Checks the target branch of a merged table.
fn check_ref(
    operation_id: &str,
    effect: &RecoveryBranchMergeEffect,
    update: &SubTableUpdate,
    refs: &IdentityMap<BranchIdentifier>,
    found: &TargetRef,
) -> (fault: Option<OmniError>)
    requires
        effect@.kind.fork_version() is Some ==> refs@.contains_key(effect.identity),
    ensures
        opt_view(fault) == ref_fault(operation_id@, effect@, update@, refs@, *found),
{
    let alias: &str = effect.table_key.as_str();
    if found.head.version != update.table_version {
        let head: String = decimal_text(found.head.version);
        let said: String = decimal_text(update.table_version);
        let reason: String = cat4(
            "' observed HEAD ",
            head.as_str(),
            ", achieved update says ",
            said.as_str(),
        );
        return Some(error_about_table(operation_id, alias, reason.as_str()));
    }
    if let Some(source) = effect.kind.source_fork_version() {
        if found.parent_version != Some(source) {
            let parent: String = version_to_text(found.parent_version);
            let wanted: String = decimal_text(source);
            let reason: String = cat4(
                "' target ref parent is ",
                parent.as_str(),
                ", exact fork version is ",
                wanted.as_str(),
            );
            return Some(error_about_table(operation_id, alias, reason.as_str()));
        }
        let same_ref: bool = match refs.get(effect.identity) {
            Some(expected) => found.branch_identifier.same(expected),
            None => {
                assert(false);
                false
            },
        };
        if !same_ref {
            return Some(
                error_about_table(
                    operation_id,
                    alias,
                    "' target ref identity differs from the writer's achieved identity",
                ),
            );
        }
    }
    None
}

/// Checks that a table that gets data holds its whole chain.
fn check_chain(
    operation_id: &str,
    pin: &SidecarTablePin,
    alias: &str,
    planned: &Vec<StagedTransactionIdentity>,
    update: &SubTableUpdate,
    found: &TargetRef,
) -> (fault: Option<OmniError>)
    requires
        planned.len() > 0,
    ensures
        opt_view(fault) == chain_fault(
            operation_id@,
            pin@,
            alias@,
            views(planned@),
            update@,
            *found,
        ),
{
    let last: u64 = planned[planned.len() - 1].read_version;
    assert(views(planned@).last() == planned@[planned@.len() - 1]@);
    if last == u64::MAX {
        let rest: String = cat3(
            "' planned transaction chain for '",
            alias,
            "' overflows its final output version",
        );
        return Some(error_about("BranchMerge", operation_id, rest.as_str()));
    }
    if update.table_version < last + 1 {
        let reached: String = decimal_text(update.table_version);
        let wanted: String = decimal_text(last + 1);
        let rest: String = cat7(
            "' multi-commit table '",
            alias,
            "' stopped before its complete planned transaction chain (",
            reached.as_str(),
            " < ",
            wanted.as_str(),
            ")",
        );
        return Some(error_about("BranchMerge", operation_id, rest.as_str()));
    }
    let proven: BranchMergeMultiCommitProof = match prove_branch_merge_multi_commit_effect(
        &found.head.history,
        found.head.version,
        planned,
        pin.expected_version,
        alias,
    ) {
        Ok(proven) => proven,
        Err(error) => {
            return Some(error);
        },
    };
    if proven.effect_ownership != EffectOwnership::OwnAtHead || !proven.full_effect_at_head
        || proven.unsafe_reason.is_some() {
        let reason: &str = match &proven.unsafe_reason {
            Some(reason) => reason.as_str(),
            None => "the full exact effect is not at HEAD",
        };
        let rest: String = cat4(
            "' cannot confirm unproven transaction chain for table '",
            alias,
            "': ",
            reason,
        );
        return Some(error_about("BranchMerge", operation_id, rest.as_str()));
    }
    None
}

/// Checks one effect of a merge.
fn check_merge_effect(
    operation_id: &str,
    pin: &SidecarTablePin,
    effect: &RecoveryBranchMergeEffect,
    update: &SubTableUpdate,
    refs: &IdentityMap<BranchIdentifier>,
    target: &Option<TargetRef>,
) -> (fault: Option<OmniError>)
    requires
        effect@.kind.fork_version() is Some ==> refs@.contains_key(effect.identity),
        match effect@.kind {
            RecoveryBranchMergeEffectKindModel::MultiCommitHead { planned_transactions, .. } =>
                planned_transactions.len() > 0,
            RecoveryBranchMergeEffectKindModel::RefOnlyFork { .. } => true,
        },
    ensures
        opt_view(fault) == merge_effect_fault(
            operation_id@,
            pin@,
            effect@,
            update@,
            refs@,
            *target,
        ),
{
    let alias: &str = effect.table_key.as_str();
    if pin.table_key != effect.table_key || update.table_key != effect.table_key {
        let identity: String = effect.identity.to_text();
        let rest: String = cat3(
            "' identity ",
            identity.as_str(),
            " has inconsistent diagnostic aliases",
        );
        return Some(error_about("BranchMerge", operation_id, rest.as_str()));
    }
    let found: &TargetRef = match target {
        Some(found) => found,
        None => {
            let rest: String = cat3(
                "' cannot confirm missing target ref for table '",
                alias,
                "'",
            );
            return Some(error_about("BranchMerge", operation_id, rest.as_str()));
        },
    };
    if let Some(error) = check_ref(operation_id, effect, update, refs, found) {
        return Some(error);
    }
    match &effect.kind {
        RecoveryBranchMergeEffectKind::MultiCommitHead { planned_transactions, .. } =>
            check_chain(operation_id, pin, alias, planned_transactions, update, found),
        RecoveryBranchMergeEffectKind::RefOnlyFork { source_version, .. } => {
            if update.table_version != *source_version {
                let reached: String = decimal_text(update.table_version);
                let wanted: String = decimal_text(*source_version);
                let rest: String = cat6(
                    "' ref-only table '",
                    alias,
                    "' achieved version ",
                    reached.as_str(),
                    ", exact fork version ",
                    wanted.as_str(),
                );
                return Some(error_about("BranchMerge", operation_id, rest.as_str()));
            }
            None
        },
    }
}

/// Whether every effect has a pin and an achieved output.
pub open spec fn effects_backed(
    effects: Seq<RecoveryBranchMergeEffectModel>,
    pins: Seq<SidecarTablePinModel>,
    updates: Seq<SubTableUpdateModel>,
) -> bool {
    &&& within(
        identities::<RecoveryBranchMergeEffect>(effects),
        identities::<SidecarTablePin>(pins),
    )
    &&& within(
        identities::<RecoveryBranchMergeEffect>(effects),
        identities::<SubTableUpdate>(updates),
    )
}

/// Checks that every effect of a merge is as it was planned.
fn check_merge_effects(
    sidecar: &RecoverySidecar,
    payload: &RecoveryProtocolV4,
    updates: &Vec<SubTableUpdate>,
    refs: &IdentityMap<BranchIdentifier>,
    targets: &Vec<Option<TargetRef>>,
) -> (fault: Option<OmniError>)
    requires
        targets.len() == payload.effects.len(),
        effects_backed(payload@.effects, sidecar@.tables, views(updates@)),
        chains_present(payload@.effects),
        refs_match(payload@.effects, refs@),
    ensures
        opt_view(fault) == first_defect(
            merge_effect_faults(
                sidecar@.operation_id,
                sidecar@.tables,
                payload@.effects,
                views(updates@),
                refs@,
                targets@,
            ),
        ),
{
    let effects: &Vec<RecoveryBranchMergeEffect> = &payload.effects;
    let ghost models = payload@.effects;
    let ghost ids = identities::<RecoveryBranchMergeEffect>(models);
    let ghost faults = merge_effect_faults(
        sidecar@.operation_id,
        sidecar@.tables,
        models,
        views(updates@),
        refs@,
        targets@,
    );
    let mut i: usize = 0;
    while i < effects.len()
        invariant
            i <= effects.len(),
            *effects == payload.effects,
            models == views(effects@),
            targets.len() == effects.len(),
            ids == identities::<RecoveryBranchMergeEffect>(models),
            effects_backed(models, sidecar@.tables, views(updates@)),
            chains_present(models),
            refs_match(models, refs@),
            faults == merge_effect_faults(
                sidecar@.operation_id,
                sidecar@.tables,
                models,
                views(updates@),
                refs@,
                targets@,
            ),
            forall|j: int| 0 <= j < i ==> faults[j] is None,
        decreases effects.len() - i,
    {
        let effect: &RecoveryBranchMergeEffect = &effects[i];
        assert(models[i as int] == effect@);
        assert(ids[i as int] == effect.identity);
        assert(effect@.kind.fork_version() is Some ==> forks(models, effect.identity));
        assert(effect@.kind.fork_version() is Some ==> refs@.contains_key(effect.identity));
        match (place_of(&sidecar.tables, effect.identity), place_of(updates, effect.identity)) {
            (Some(p), Some(u)) => {
                let fault: Option<OmniError> = check_merge_effect(
                    sidecar.operation_id.as_str(),
                    &sidecar.tables[p],
                    effect,
                    &updates[u],
                    refs,
                    &targets[i],
                );
                assert(faults[i as int] == opt_view(fault));
                if fault.is_some() {
                    proof {
                        lemma_first_defect(faults, i as int);
                    }
                    return fault;
                }
            },
            _ => {
                assert(false);
            },
        }
        i += 1;
    }
    proof {
        lemma_no_defect(faults);
    }
    None
}

/// Puts the achieved version and the made branch into the kind of an effect.
fn confirm_kind(
    kind: &RecoveryBranchMergeEffectKind,
    version: u64,
    identifier: Option<BranchIdentifier>,
) -> (confirmed: RecoveryBranchMergeEffectKind)
    ensures
        confirmed@ == confirmed_kind(kind@, version, opt_view(identifier)),
{
    match kind {
        RecoveryBranchMergeEffectKind::MultiCommitHead {
            source_fork_version,
            planned_transactions,
            ..
        } => RecoveryBranchMergeEffectKind::MultiCommitHead {
            source_fork_version: *source_fork_version,
            planned_transactions: crate::value::replicate_vec(planned_transactions),
            confirmed_version: Some(version),
            confirmed_branch_identifier: identifier,
        },
        RecoveryBranchMergeEffectKind::RefOnlyFork { source_version, .. } =>
            RecoveryBranchMergeEffectKind::RefOnlyFork {
            source_version: *source_version,
            confirmed_branch_identifier: identifier,
        },
    }
}

/// Puts the achieved versions and the made branches into the effects.
fn confirm_effects(
    effects: &Vec<RecoveryBranchMergeEffect>,
    updates: &Vec<SubTableUpdate>,
    refs: &IdentityMap<BranchIdentifier>,
) -> (confirmed: Vec<RecoveryBranchMergeEffect>)
    requires
        within(
            identities::<RecoveryBranchMergeEffect>(views(effects@)),
            identities::<SubTableUpdate>(views(updates@)),
        ),
    ensures
        views(confirmed@) == confirmed_effects(views(effects@), views(updates@), refs@),
{
    let ghost models = views(effects@);
    let ghost ids = identities::<RecoveryBranchMergeEffect>(models);
    let ghost expected = confirmed_effects(models, views(updates@), refs@);
    let mut confirmed: Vec<RecoveryBranchMergeEffect> = Vec::new();
    let mut i: usize = 0;
    while i < effects.len()
        invariant
            i <= effects.len(),
            models == views(effects@),
            ids == identities::<RecoveryBranchMergeEffect>(models),
            within(ids, identities::<SubTableUpdate>(views(updates@))),
            expected == confirmed_effects(models, views(updates@), refs@),
            confirmed.len() == i,
            forall|j: int| 0 <= j < i ==> (#[trigger] confirmed@[j])@ == expected[j],
        decreases effects.len() - i,
    {
        assert(models[i as int] == effects@[i as int]@);
        assert(ids[i as int] == effects@[i as int].identity);
        let mut effect: RecoveryBranchMergeEffect = effects[i].replicate();
        let identifier: Option<BranchIdentifier> = match refs.get(effects[i].identity) {
            Some(identifier) => Some(identifier.replicate()),
            None => None,
        };
        match place_of(updates, effects[i].identity) {
            Some(u) => {
                effect.kind = confirm_kind(
                    &effects[i].kind,
                    updates[u].table_version,
                    identifier,
                );
            },
            None => {
                assert(false);
            },
        }
        confirmed.push(effect);
        i += 1;
    }
    assert(views(confirmed@) =~= expected);
    confirmed
}

/// Binds every achieved output of a merge, those included that only point
/// elsewhere. `confirmed_ref_identifiers` holds the branches that the merge made,
/// and `targets`, for every effect, what was found of its target branch.
pub fn confirm_branch_merge_sidecar_v9(
    root_uri: &str,
    sidecar: &RecoverySidecar,
    updates: &Vec<SubTableUpdate>,
    confirmed_ref_identifiers: &IdentityMap<BranchIdentifier>,
    targets: &Vec<Option<TargetRef>>,
) -> (result: Result<RecoverySidecar, OmniError>)
    requires
        sidecar.protocol_v4 is Some ==> targets.len() == (sidecar.protocol_v4->0).effects.len(),
    ensures
        confirms(
            result,
            merge_confirmation(
                root_uri@,
                sidecar@,
                views(updates@),
                confirmed_ref_identifiers@,
                targets@,
            ),
        ),
{
    let uri: String = sidecar_uri(root_uri, sidecar.operation_id.as_str());
    let id: &str = sidecar.operation_id.as_str();
    if let Err(error) = validate_sidecar_shape(uri.as_str(), sidecar) {
        return Err(error);
    }
    let payload: &RecoveryProtocolV4 = match &sidecar.protocol_v4 {
        Some(payload) => payload,
        None => {
            return Err(
                OmniError::manifest_internal(
                    "confirm_branch_merge_sidecar_v9 requires a schema-v9 BranchMerge sidecar",
                ),
            );
        },
    };
    if payload.effect_phase != RecoveryEffectPhase::Armed {
        return Err(error_about("BranchMerge", id, "' is already EffectsConfirmed"));
    }
    if !identities_distinct(updates) || !identities_equal(
        updates,
        &payload.intended_delta.table_updates,
    ) {
        return Err(
            error_about(
                "BranchMerge",
                id,
                "' confirmation updates differ from its complete intended delta",
            ),
        );
    }
    if !do_refs_match(&payload.effects, confirmed_ref_identifiers) {
        return Err(
            error_about(
                "BranchMerge",
                id,
                "' confirmed target-ref set differs from its first-touch effects",
            ),
        );
    }
    if let Some(error) = check_slots(id, &payload.intended_delta.table_updates, updates) {
        return Err(error);
    }
    proof {
        lemma_sound_branch_merge(uri@, sidecar@);
        let effect_ids = identities::<RecoveryBranchMergeEffect>(payload@.effects);
        let slot_ids = identities::<RecoveryTableUpdateSlot>(
            payload@.intended_delta.table_updates,
        );
        let update_ids = identities::<SubTableUpdate>(views(updates@));
        assert forall|i: int| 0 <= i < effect_ids.len() implies update_ids.contains(
            #[trigger] effect_ids[i],
        ) by {
            assert(slot_ids.contains(effect_ids[i]));
            let k = choose|k: int| 0 <= k < slot_ids.len() && slot_ids[k] == effect_ids[i];
            assert(update_ids.contains(slot_ids[k]));
        }
    }
    if let Some(error) = check_merge_effects(
        sidecar,
        payload,
        updates,
        confirmed_ref_identifiers,
        targets,
    ) {
        return Err(error);
    }
    let mut confirmed_payload: RecoveryProtocolV4 = payload.replicate();
    confirmed_payload.effects = confirm_effects(
        &payload.effects,
        updates,
        confirmed_ref_identifiers,
    );
    confirmed_payload.intended_delta.table_updates = confirm_slots(
        &payload.intended_delta.table_updates,
        updates,
    );
    confirmed_payload.effect_phase = RecoveryEffectPhase::EffectsConfirmed;
    let mut confirmed: RecoverySidecar = sidecar.replicate();
    confirmed.protocol_v4 = Some(confirmed_payload);
    confirmed.tables = confirm_pins(&sidecar.tables, updates);
    assert(confirmed@ == merge_confirmed(
        sidecar@,
        payload@,
        views(updates@),
        confirmed_ref_identifiers@,
    ));
    if let Err(error) = validate_sidecar_shape(uri.as_str(), &confirmed) {
        return Err(error);
    }
    Ok(confirmed)
}

} // verus!
