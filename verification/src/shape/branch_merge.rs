//! The shape of a branch-merge sidecar: for each pinned table a chain of data
//! transactions or a bare fork, and an output slot for every table of the merge.

use vstd::prelude::*;

use crate::error::{fails_as, OmniError};
use crate::identity::invalid_identity_text;
use crate::lookup::{
    aliases, aliases_distinct, find_by_identity, identities, identities_distinct, identities_equal,
    identities_within, place_of, same_elements, within,
};
use crate::shape::defect::{
    authority_defect, first_defect, lemma_all_sound, lemma_first_defect, lemma_no_defect,
    malformed_error, malformed_if, named_branch, pins_defect, plan_is_sound, plan_sound,
    same_branch, sound_before, validate_authority_identity, validate_unique_pin_identities,
};
use crate::sidecar::{
    kind_text, RecoveryBranchMergeEffect, RecoveryBranchMergeEffectKind,
    RecoveryBranchMergeEffectKindModel, RecoveryBranchMergeEffectModel, RecoveryEffectPhase,
    RecoveryProtocolV4, RecoveryProtocolV4Model, RecoverySidecar, RecoverySidecarModel,
    RecoveryTableUpdateSlot, RecoveryTableUpdateSlotModel, SidecarKind, SidecarTablePin,
    SidecarTablePinModel, StagedTransactionIdentity, StagedTransactionIdentityModel,
    MAX_BRANCH_MERGE_DATA_TRANSACTIONS,
};
use crate::text::{cat2, cat3, cat4, cat6, decimal, decimal_text, same_text};
use crate::value::{opt_view, same_opt, views};

verus! {

/// The ids of a chain of transactions.
pub open spec fn chain_uuids(chain: Seq<StagedTransactionIdentityModel>) -> Seq<Seq<char>> {
    Seq::new(chain.len(), |i: int| chain[i].uuid)
}

/// Whether the transaction at place `k` of a chain has an id that occurs neither
/// before it nor among those seen.
pub open spec fn step_named(
    chain: Seq<StagedTransactionIdentityModel>,
    seen: Seq<Seq<char>>,
    k: int,
) -> bool {
    chain[k].uuid.len() > 0 && !(seen + chain_uuids(chain).subrange(0, k)).contains(chain[k].uuid)
}

/// What the transaction at place `k` of a chain is refused with, where `seen`
/// holds the ids of the chains before it.
pub open spec fn step_defect(
    pin: SidecarTablePinModel,
    chain: Seq<StagedTransactionIdentityModel>,
    seen: Seq<Seq<char>>,
    k: int,
) -> Option<Seq<char>> {
    let step = chain[k];
    if !step_named(chain, seen, k) {
        Some(
            "planned transaction chain for '"@ + pin.table_key
                + "' contains an empty or duplicate identity at offset "@ + decimal(k as nat),
        )
    } else if pin.expected_version + k > u64::MAX {
        Some(
            "planned transaction chain for '"@ + pin.table_key + "' overflows at offset "@
                + decimal(k as nat),
        )
    } else if step.read_version != pin.expected_version + k {
        Some(
            "planned transaction chain for '"@ + pin.table_key + "' reads version "@ + decimal(
                step.read_version as nat,
            ) + " at offset "@ + decimal(k as nat) + ", expected "@ + decimal(
                (pin.expected_version + k) as nat,
            ),
        )
    } else {
        None
    }
}

/// What is found of every transaction of a chain.
pub open spec fn step_findings(
    pin: SidecarTablePinModel,
    chain: Seq<StagedTransactionIdentityModel>,
    seen: Seq<Seq<char>>,
) -> Seq<Option<Seq<char>>> {
    Seq::new(chain.len(), |k: int| step_defect(pin, chain, seen, k))
}

/// What a chain of data transactions is refused with before its transactions are
/// looked at one by one.
pub open spec fn chain_start_defect(
    pin: SidecarTablePinModel,
    chain: Seq<StagedTransactionIdentityModel>,
) -> Option<Seq<char>> {
    if chain.len() > MAX_BRANCH_MERGE_DATA_TRANSACTIONS {
        Some(
            "planned transaction chain for '"@ + pin.table_key + "' contains "@ + decimal(
                chain.len(),
            ) + " data transactions, exceeding the recovery-safe limit of "@ + decimal(
                MAX_BRANCH_MERGE_DATA_TRANSACTIONS as nat,
            ),
        )
    } else if chain.len() == 0 {
        Some(
            "multi-commit effect '"@ + pin.table_key
                + "' has an empty planned transaction chain"@,
        )
    } else if chain[0].read_version != pin.expected_version {
        Some(
            "planned transaction chain for '"@ + pin.table_key + "' begins at version "@ + decimal(
                chain[0].read_version as nat,
            ) + ", pin expects "@ + decimal(pin.expected_version as nat),
        )
    } else if pin.expected_version == u64::MAX {
        Some(
            "planned transaction chain for '"@ + pin.table_key
                + "' overflows its first output version"@,
        )
    } else if pin.post_commit_pin != pin.expected_version + 1 {
        Some(
            "post-commit pin for '"@ + pin.table_key + "' is "@ + decimal(
                pin.post_commit_pin as nat,
            ) + ", first planned output is "@ + decimal((pin.expected_version + 1) as nat),
        )
    } else {
        None
    }
}

/// What a chain of data transactions is refused with: a sound chain is short
/// enough, starts at the version that its pin expects, reads one version after
/// the other, and uses each transaction id once.
pub open spec fn chain_defect(
    pin: SidecarTablePinModel,
    chain: Seq<StagedTransactionIdentityModel>,
    seen: Seq<Seq<char>>,
) -> Option<Seq<char>> {
    if chain_start_defect(pin, chain) is Some {
        chain_start_defect(pin, chain)
    } else if first_defect(step_findings(pin, chain, seen)) is Some {
        first_defect(step_findings(pin, chain, seen))
    } else if chain.last().read_version == u64::MAX {
        Some(
            "planned transaction chain for '"@ + pin.table_key
                + "' overflows its final output version"@,
        )
    } else {
        None
    }
}

/// How many ids of a chain are added to those seen: all of a sound chain, and of
/// another those up to the first defect, with the id of the transaction there if it
/// is not the id that is refused.
pub open spec fn ids_taken(
    pin: SidecarTablePinModel,
    chain: Seq<StagedTransactionIdentityModel>,
    seen: Seq<Seq<char>>,
) -> int {
    let sound = sound_before(step_findings(pin, chain, seen));
    if chain_start_defect(pin, chain) is Some {
        0
    } else if sound < chain.len() && step_named(chain, seen, sound) {
        sound + 1
    } else {
        sound
    }
}

/// The version that a sound chain ends at.
pub open spec fn chain_output(chain: Seq<StagedTransactionIdentityModel>) -> int {
    chain.last().read_version + 1
}

/// What one output slot is refused with.
pub open spec fn slot_defect(
    phase: RecoveryEffectPhase,
    slot: RecoveryTableUpdateSlotModel,
) -> Option<Seq<char>> {
    if !slot.identity.valid() {
        Some("invalid delta identity: "@ + invalid_identity_text())
    } else if phase == RecoveryEffectPhase::Armed && slot.confirmed is Some {
        Some("Armed manifest slot '"@ + slot.table_key + "' already carries confirmation"@)
    } else if phase == RecoveryEffectPhase::EffectsConfirmed && slot.confirmed is None {
        Some("EffectsConfirmed manifest slot '"@ + slot.table_key + "' lacks its exact output"@)
    } else if slot.confirmed matches Some(confirmed) && confirmed.table_branch
        != slot.table_branch {
        Some(
            "confirmed output branch for '"@ + slot.table_key + "' differs from its planned slot"@,
        )
    } else {
        None
    }
}

/// What is found of every output slot.
pub open spec fn slot_findings(
    phase: RecoveryEffectPhase,
    slots: Seq<RecoveryTableUpdateSlotModel>,
) -> Seq<Option<Seq<char>>> {
    Seq::new(slots.len(), |i: int| slot_defect(phase, slots[i]))
}

/// The chain of transactions that an effect plans.
pub open spec fn chain_of(kind: RecoveryBranchMergeEffectKindModel) -> Seq<
    StagedTransactionIdentityModel,
> {
    match kind {
        RecoveryBranchMergeEffectKindModel::MultiCommitHead { planned_transactions, .. } =>
            planned_transactions,
        RecoveryBranchMergeEffectKindModel::RefOnlyFork { .. } => Seq::empty(),
    }
}

/// The effect of a pinned table.
pub open spec fn effect_of(
    protocol: RecoveryProtocolV4Model,
    pin: SidecarTablePinModel,
) -> RecoveryBranchMergeEffectModel {
    find_by_identity::<RecoveryBranchMergeEffect>(protocol.effects, pin.identity)->0
}

/// The output slot of a pinned table.
pub open spec fn slot_of(
    protocol: RecoveryProtocolV4Model,
    pin: SidecarTablePinModel,
) -> RecoveryTableUpdateSlotModel {
    find_by_identity::<RecoveryTableUpdateSlot>(
        protocol.intended_delta.table_updates,
        pin.identity,
    )->0
}

/// The transaction ids of the pinned tables before place `i`.
pub open spec fn uuids_before(
    protocol: RecoveryProtocolV4Model,
    pins: Seq<SidecarTablePinModel>,
    i: int,
) -> Seq<Seq<char>>
    decreases i,
{
    if i <= 0 {
        Seq::empty()
    } else {
        uuids_before(protocol, pins, i - 1) + chain_uuids(
            chain_of(effect_of(protocol, pins[i - 1]).kind),
        )
    }
}

/// What the confirmation of one effect is refused with.
pub open spec fn confirmation_defect(
    phase: RecoveryEffectPhase,
    pin: SidecarTablePinModel,
    kind: RecoveryBranchMergeEffectKindModel,
    slot: RecoveryTableUpdateSlotModel,
) -> Option<Seq<char>> {
    match (kind, phase) {
        (
            RecoveryBranchMergeEffectKindModel::MultiCommitHead {
                confirmed_version,
                confirmed_branch_identifier,
                ..
            },
            RecoveryEffectPhase::Armed,
        ) => if confirmed_version is Some || confirmed_branch_identifier is Some
            || pin.confirmed_version is Some {
            Some("Armed multi-commit effect '"@ + pin.table_key + "' already carries confirmation"@)
        } else {
            None
        },
        (
            RecoveryBranchMergeEffectKindModel::MultiCommitHead {
                confirmed_version,
                confirmed_branch_identifier,
                source_fork_version,
                planned_transactions,
            },
            RecoveryEffectPhase::EffectsConfirmed,
        ) => match confirmed_version {
            None => Some(
                "EffectsConfirmed multi-commit effect '"@ + pin.table_key
                    + "' lacks final version"@,
            ),
            Some(version) => if pin.confirmed_version != Some(version)
                || slot.confirmed->0.table_version != version || version < chain_output(
                planned_transactions,
            ) {
                Some(
                    "multi-commit effect '"@ + pin.table_key
                        + "' confirmation does not match its pin/delta"@,
                )
            } else if (source_fork_version is Some) != (confirmed_branch_identifier is Some) {
                Some(
                    "first-touch multi-commit effect '"@ + pin.table_key
                        + "' must confirm its target ref identity"@,
                )
            } else {
                None
            },
        },
        (
            RecoveryBranchMergeEffectKindModel::RefOnlyFork { confirmed_branch_identifier, .. },
            RecoveryEffectPhase::Armed,
        ) => if confirmed_branch_identifier is Some || pin.confirmed_version is Some {
            Some("Armed ref-only effect '"@ + pin.table_key + "' already carries confirmation"@)
        } else {
            None
        },
        (
            RecoveryBranchMergeEffectKindModel::RefOnlyFork {
                source_version,
                confirmed_branch_identifier,
            },
            RecoveryEffectPhase::EffectsConfirmed,
        ) => if confirmed_branch_identifier is None || pin.confirmed_version != Some(
            source_version,
        ) || slot.confirmed->0.table_version != source_version {
            Some(
                "ref-only effect '"@ + pin.table_key
                    + "' confirmation does not match its exact fork version"@,
            )
        } else {
            None
        },
    }
}

/// What one pinned table is refused with.
pub open spec fn table_defect(
    phase: RecoveryEffectPhase,
    pin: SidecarTablePinModel,
    effect: RecoveryBranchMergeEffectModel,
    slot: RecoveryTableUpdateSlotModel,
    seen: Seq<Seq<char>>,
) -> Option<Seq<char>> {
    if effect.table_key != pin.table_key || slot.table_key != pin.table_key {
        Some(
            "BranchMerge identity "@ + pin.identity.text()
                + " has inconsistent diagnostic aliases"@,
        )
    } else if slot.expected_version != pin.expected_version || slot.table_branch
        != pin.table_branch {
        Some(
            "intended-delta pre-state for '"@ + pin.table_key
                + "' does not match its physical table pin"@,
        )
    } else if named_branch(pin.table_branch) is None && effect.kind.fork_version() is Some {
        Some(
            "first-touch effect '"@ + pin.table_key + "' does not name a non-main target ref"@,
        )
    } else if effect.kind is MultiCommitHead && effect.kind.fork_version() is Some
        && effect.kind.fork_version() != Some(pin.expected_version) {
        Some(
            "first-touch multi-commit effect '"@ + pin.table_key + "' forks from version "@
                + decimal(effect.kind.fork_version()->0 as nat) + ", pin expects "@ + decimal(
                pin.expected_version as nat,
            ),
        )
    } else if effect.kind is MultiCommitHead && chain_defect(pin, chain_of(effect.kind), seen)
        is Some {
        chain_defect(pin, chain_of(effect.kind), seen)
    } else {
        confirmation_defect(phase, pin, effect.kind, slot)
    }
}

/// What is found of every pinned table.
pub open spec fn table_findings(
    protocol: RecoveryProtocolV4Model,
    pins: Seq<SidecarTablePinModel>,
) -> Seq<Option<Seq<char>>> {
    Seq::new(
        pins.len(),
        |i: int|
            table_defect(
                protocol.effect_phase,
                pins[i],
                effect_of(protocol, pins[i]),
                slot_of(protocol, pins[i]),
                uuids_before(protocol, pins, i),
            ),
    )
}

/// Whether the effects belong to the pins one to one, every one of them has a
/// slot, and no two slots share a table or an alias.
pub open spec fn effects_covered(
    protocol: RecoveryProtocolV4Model,
    pins: Seq<SidecarTablePinModel>,
) -> bool {
    let slots = protocol.intended_delta.table_updates;
    let effect_ids = identities::<RecoveryBranchMergeEffect>(protocol.effects);
    let slot_ids = identities::<RecoveryTableUpdateSlot>(slots);
    &&& effect_ids.no_duplicates()
    &&& slot_ids.no_duplicates()
    &&& aliases::<RecoveryTableUpdateSlot>(slots).no_duplicates()
    &&& same_elements(effect_ids, identities::<SidecarTablePin>(pins))
    &&& within(effect_ids, slot_ids)
}

/// What a branch-merge sidecar is refused with: the first rule, in this order,
/// that it breaks.
pub open spec fn branch_merge_v4_defect(sidecar: RecoverySidecarModel) -> Option<Seq<char>> {
    if sidecar.writer_kind != SidecarKind::BranchMerge {
        Some("protocol_v4 is only defined for BranchMerge, found "@ + kind_text(sidecar.writer_kind))
    } else if sidecar.protocol_v3 is Some || sidecar.protocol_v7 is Some || sidecar.protocol_v8
        is Some || sidecar.ensure_indices_rollback_v6 is Some {
        Some("schema-v4 BranchMerge sidecar carries another writer protocol"@)
    } else if sidecar.merge_source_commit_id is Some || sidecar.additional_registrations.len() > 0
        || sidecar.tombstones.len() > 0 {
        Some("schema-v4 BranchMerge must carry lineage/delta only in protocol_v4"@)
    } else {
        match sidecar.protocol_v4 {
            None => Some("missing required protocol_v4 payload"@),
            Some(protocol) => {
                let delta = protocol.intended_delta;
                let lineage = protocol.lineage;
                if authority_defect(protocol.authority) is Some {
                    authority_defect(protocol.authority)
                } else if delta.registrations.len() > 0 || delta.renames.len() > 0
                    || delta.tombstones.len() > 0 {
                    Some("BranchMerge cannot register or tombstone tables"@)
                } else if named_branch(sidecar.branch) != named_branch(lineage.branch) {
                    Some("sidecar branch does not match original merge lineage branch"@)
                } else if sidecar.actor_id != lineage.actor_id {
                    Some("sidecar actor does not match original merge lineage actor"@)
                } else if lineage.merged_parent_commit_id is None {
                    Some("BranchMerge lineage must carry the captured source commit"@)
                } else if protocol.rollback_graph_commit_id == lineage.graph_commit_id {
                    Some("original and rollback graph commit ids must differ"@)
                } else if pins_defect(sidecar.tables, true) is Some {
                    pins_defect(sidecar.tables, true)
                } else if !effects_covered(protocol, sidecar.tables) {
                    Some(
                        "physical table pins/effects must be one-to-one and a subset of unique intended-delta slots"@,
                    )
                } else if !plan_sound(protocol.rollback_audit_outcomes, sidecar.tables) {
                    Some(
                        "rollback audit outcomes must name a unique subset of physical table pins"@,
                    )
                } else if first_defect(slot_findings(protocol.effect_phase, delta.table_updates))
                    is Some {
                    first_defect(slot_findings(protocol.effect_phase, delta.table_updates))
                } else {
                    first_defect(table_findings(protocol, sidecar.tables))
                }
            },
        }
    }
}

/// Whether a transaction id is among those in a list.
fn uuid_seen(seen: &Vec<String>, uuid: &String) -> (answer: bool)
    ensures
        answer == views(seen@).contains(uuid@),
{
    let ghost models = views(seen@);
    let mut i: usize = 0;
    while i < seen.len()
        invariant
            i <= seen.len(),
            models == views(seen@),
            forall|j: int| 0 <= j < i ==> models[j] != uuid@,
        decreases seen.len() - i,
    {
        assert(models[i as int] == seen@[i as int]@);
        if seen[i] == *uuid {
            return true;
        }
        i += 1;
    }
    false
}

/// Refuses one transaction of a chain; the id of one that is not refused for it is
/// added to those seen.
fn check_step(
    pin: &SidecarTablePin,
    chain: &Vec<StagedTransactionIdentity>,
    k: usize,
    seen: &mut Vec<String>,
    Ghost(before): Ghost<Seq<Seq<char>>>,
) -> (defect: Option<String>)
    requires
        k < chain.len(),
        k <= MAX_BRANCH_MERGE_DATA_TRANSACTIONS,
        views(old(seen)@) == before + chain_uuids(views(chain@)).subrange(0, k as int),
    ensures
        opt_view(defect) == step_defect(pin@, views(chain@), before, k as int),
        views(final(seen)@) == before + chain_uuids(views(chain@)).subrange(
            0,
            if step_named(views(chain@), before, k as int) {
                k + 1
            } else {
                k as int
            },
        ),
{
    let planned: &StagedTransactionIdentity = &chain[k];
    let key: &str = pin.table_key.as_str();
    let offset: u64 = k as u64;
    assert(views(chain@)[k as int] == planned@);
    if planned.uuid.as_str().is_empty() || uuid_seen(seen, &planned.uuid) {
        let place: String = decimal_text(offset);
        return Some(
            cat4(
                "planned transaction chain for '",
                key,
                "' contains an empty or duplicate identity at offset ",
                place.as_str(),
            ),
        );
    }
    let ghost earlier = seen@;
    seen.push(planned.uuid.clone());
    assert(views(seen@) =~= views(earlier).push(planned.uuid@));
    assert(chain_uuids(views(chain@)).subrange(0, k + 1) =~= chain_uuids(views(chain@)).subrange(
        0,
        k as int,
    ).push(planned.uuid@));
    assert(views(seen@) =~= before + chain_uuids(views(chain@)).subrange(0, k + 1));
    if pin.expected_version > u64::MAX - offset {
        let place: String = decimal_text(offset);
        return Some(
            cat4("planned transaction chain for '", key, "' overflows at offset ", place.as_str()),
        );
    }
    let expected: u64 = pin.expected_version + offset;
    if planned.read_version != expected {
        let read: String = decimal_text(planned.read_version);
        let place: String = decimal_text(offset);
        let wanted: String = decimal_text(expected);
        let head: String = cat6(
            "planned transaction chain for '",
            key,
            "' reads version ",
            read.as_str(),
            " at offset ",
            place.as_str(),
        );
        return Some(cat3(head.as_str(), ", expected ", wanted.as_str()));
    }
    None
}

/// Refuses an unsound chain of data transactions; the version that a sound one ends
/// at is returned. The ids are added to those seen, as far as they are looked at.
pub fn validate_branch_merge_transaction_chain(
    pin: &SidecarTablePin,
    chain: &Vec<StagedTransactionIdentity>,
    seen: &mut Vec<String>,
) -> (result: Result<u64, String>)
    ensures
        match chain_defect(pin@, views(chain@), views(old(seen)@)) {
            Some(reason) => {
                &&& result is Err && result->Err_0@ == reason
                &&& views(final(seen)@) == views(old(seen)@) + chain_uuids(views(chain@)).subrange(
                    0,
                    ids_taken(pin@, views(chain@), views(old(seen)@)),
                )
            },
            None => {
                &&& result == Ok::<u64, String>(chain_output(views(chain@)) as u64)
                &&& chain_output(views(chain@)) <= u64::MAX
                &&& views(final(seen)@) == views(old(seen)@) + chain_uuids(views(chain@))
            },
        },
{
    let key: &str = pin.table_key.as_str();
    let count: u64 = chain.len() as u64;
    assert(views(seen@) + chain_uuids(views(chain@)).subrange(0, 0) =~= views(seen@));
    if count > MAX_BRANCH_MERGE_DATA_TRANSACTIONS {
        let found: String = decimal_text(count);
        let limit: String = decimal_text(MAX_BRANCH_MERGE_DATA_TRANSACTIONS);
        return Err(
            cat6(
                "planned transaction chain for '",
                key,
                "' contains ",
                found.as_str(),
                " data transactions, exceeding the recovery-safe limit of ",
                limit.as_str(),
            ),
        );
    }
    if chain.is_empty() {
        return Err(
            cat3("multi-commit effect '", key, "' has an empty planned transaction chain"),
        );
    }
    if chain[0].read_version != pin.expected_version {
        let read: String = decimal_text(chain[0].read_version);
        let expected: String = decimal_text(pin.expected_version);
        return Err(
            cat6(
                "planned transaction chain for '",
                key,
                "' begins at version ",
                read.as_str(),
                ", pin expects ",
                expected.as_str(),
            ),
        );
    }
    if pin.expected_version == u64::MAX {
        return Err(
            cat3(
                "planned transaction chain for '",
                key,
                "' overflows its first output version",
            ),
        );
    }
    let first_output: u64 = pin.expected_version + 1;
    if pin.post_commit_pin != first_output {
        let pinned: String = decimal_text(pin.post_commit_pin);
        let output: String = decimal_text(first_output);
        return Err(
            cat6(
                "post-commit pin for '",
                key,
                "' is ",
                pinned.as_str(),
                ", first planned output is ",
                output.as_str(),
            ),
        );
    }
    let ghost before = views(seen@);
    let ghost models = views(chain@);
    let ghost findings = step_findings(pin@, models, before);
    let mut k: usize = 0;
    while k < chain.len()
        invariant
            k <= chain.len() <= MAX_BRANCH_MERGE_DATA_TRANSACTIONS,
            models == views(chain@),
            findings == step_findings(pin@, models, before),
            views(seen@) == before + chain_uuids(models).subrange(0, k as int),
            before == views(old(seen)@),
            forall|j: int| 0 <= j < k ==> findings[j] is None,
            chain.len() > 0,
            chain@[0].read_version == pin.expected_version,
            pin.expected_version < u64::MAX,
            pin.post_commit_pin == pin.expected_version + 1,
        decreases chain.len() - k,
    {
        let defect: Option<String> = check_step(pin, chain, k, seen, Ghost(before));
        assert(opt_view(defect) == findings[k as int]);
        if let Some(reason) = defect {
            proof {
                lemma_first_defect(findings, k as int);
            }
            return Err(reason);
        }
        k += 1;
    }
    proof {
        lemma_no_defect(findings);
        assert(chain_uuids(models).subrange(0, chain.len() as int) =~= chain_uuids(models));
        assert(models.last() == chain@[chain.len() - 1]@);
    }
    let last: u64 = chain[chain.len() - 1].read_version;
    if last == u64::MAX {
        return Err(
            cat3(
                "planned transaction chain for '",
                key,
                "' overflows its final output version",
            ),
        );
    }
    Ok(last + 1)
}

/// Refuses one output slot.
fn check_slot(phase: RecoveryEffectPhase, slot: &RecoveryTableUpdateSlot) -> (defect: Option<
    String,
>)
    ensures
        opt_view(defect) == slot_defect(phase, slot@),
{
    let key: &str = slot.table_key.as_str();
    if let Err(error) = slot.identity.validate() {
        let text: String = error.to_text();
        return Some(cat2("invalid delta identity: ", text.as_str()));
    }
    if phase == RecoveryEffectPhase::Armed && slot.confirmed.is_some() {
        return Some(cat3("Armed manifest slot '", key, "' already carries confirmation"));
    }
    if phase == RecoveryEffectPhase::EffectsConfirmed && slot.confirmed.is_none() {
        return Some(cat3("EffectsConfirmed manifest slot '", key, "' lacks its exact output"));
    }
    if let Some(confirmed) = &slot.confirmed {
        if !same_opt(&confirmed.table_branch, &slot.table_branch) {
            return Some(
                cat3("confirmed output branch for '", key, "' differs from its planned slot"),
            );
        }
    }
    None
}

/// Refuses the first output slot that breaks a rule.
fn check_slots(phase: RecoveryEffectPhase, slots: &Vec<RecoveryTableUpdateSlot>) -> (defect: Option<
    String,
>)
    ensures
        opt_view(defect) == first_defect(slot_findings(phase, views(slots@))),
{
    let ghost findings = slot_findings(phase, views(slots@));
    let mut i: usize = 0;
    while i < slots.len()
        invariant
            i <= slots.len(),
            findings == slot_findings(phase, views(slots@)),
            forall|j: int| 0 <= j < i ==> findings[j] is None,
        decreases slots.len() - i,
    {
        let defect: Option<String> = check_slot(phase, &slots[i]);
        assert(opt_view(defect) == findings[i as int]);
        if defect.is_some() {
            proof {
                lemma_first_defect(findings, i as int);
            }
            return defect;
        }
        i += 1;
    }
    proof {
        lemma_no_defect(findings);
    }
    None
}

/// Refuses the confirmation of one effect.
fn check_confirmation(
    phase: RecoveryEffectPhase,
    pin: &SidecarTablePin,
    kind: &RecoveryBranchMergeEffectKind,
    slot: &RecoveryTableUpdateSlot,
) -> (defect: Option<String>)
    requires
        phase == RecoveryEffectPhase::EffectsConfirmed ==> slot.confirmed is Some,
        kind@ is MultiCommitHead ==> chain_of(kind@).len() > 0 && chain_output(chain_of(kind@))
            <= u64::MAX,
    ensures
        opt_view(defect) == confirmation_defect(phase, pin@, kind@, slot@),
{
    let key: &str = pin.table_key.as_str();
    let reached: Option<u64> = match &slot.confirmed {
        Some(confirmed) => Some(confirmed.table_version),
        None => None,
    };
    match (kind, phase) {
        (
            RecoveryBranchMergeEffectKind::MultiCommitHead {
                confirmed_version,
                confirmed_branch_identifier,
                ..
            },
            RecoveryEffectPhase::Armed,
        ) => {
            if confirmed_version.is_some() || confirmed_branch_identifier.is_some()
                || pin.confirmed_version.is_some() {
                return Some(
                    cat3("Armed multi-commit effect '", key, "' already carries confirmation"),
                );
            }
            None
        },
        (
            RecoveryBranchMergeEffectKind::MultiCommitHead {
                confirmed_version,
                confirmed_branch_identifier,
                source_fork_version,
                planned_transactions,
            },
            RecoveryEffectPhase::EffectsConfirmed,
        ) => {
            let version: u64 = match confirmed_version {
                Some(version) => *version,
                None => {
                    return Some(
                        cat3(
                            "EffectsConfirmed multi-commit effect '",
                            key,
                            "' lacks final version",
                        ),
                    );
                },
            };
            assert(views(planned_transactions@).last() == planned_transactions@.last()@);
            let output: u64 = planned_transactions[planned_transactions.len() - 1].read_version + 1;
            if !same_opt(&pin.confirmed_version, &Some(version)) || !same_opt(
                &reached,
                &Some(version),
            ) || version < output {
                return Some(
                    cat3(
                        "multi-commit effect '",
                        key,
                        "' confirmation does not match its pin/delta",
                    ),
                );
            }
            if source_fork_version.is_some() != confirmed_branch_identifier.is_some() {
                return Some(
                    cat3(
                        "first-touch multi-commit effect '",
                        key,
                        "' must confirm its target ref identity",
                    ),
                );
            }
            None
        },
        (
            RecoveryBranchMergeEffectKind::RefOnlyFork { confirmed_branch_identifier, .. },
            RecoveryEffectPhase::Armed,
        ) => {
            if confirmed_branch_identifier.is_some() || pin.confirmed_version.is_some() {
                return Some(
                    cat3("Armed ref-only effect '", key, "' already carries confirmation"),
                );
            }
            None
        },
        (
            RecoveryBranchMergeEffectKind::RefOnlyFork {
                source_version,
                confirmed_branch_identifier,
            },
            RecoveryEffectPhase::EffectsConfirmed,
        ) => {
            if confirmed_branch_identifier.is_none() || !same_opt(
                &pin.confirmed_version,
                &Some(*source_version),
            ) || !same_opt(&reached, &Some(*source_version)) {
                return Some(
                    cat3(
                        "ref-only effect '",
                        key,
                        "' confirmation does not match its exact fork version",
                    ),
                );
            }
            None
        },
    }
}

/// Whether a branch other than main is named.
pub fn names_branch(branch: &Option<String>) -> (answer: bool)
    ensures
        answer == (named_branch(opt_view(*branch)) is Some),
{
    match branch {
        Some(name) => !same_text(name.as_str(), "main"),
        None => false,
    }
}

/// Refuses one pinned table whose effect or slot does not fit it; the
/// transaction ids of a sound one are added to those seen.
fn check_table(
    phase: RecoveryEffectPhase,
    pin: &SidecarTablePin,
    effect: &RecoveryBranchMergeEffect,
    slot: &RecoveryTableUpdateSlot,
    seen: &mut Vec<String>,
) -> (defect: Option<String>)
    requires
        slot_defect(phase, slot@) is None,
    ensures
        opt_view(defect) == table_defect(phase, pin@, effect@, slot@, views(old(seen)@)),
        defect is None ==> views(final(seen)@) == views(old(seen)@) + chain_uuids(
            chain_of(effect@.kind),
        ),
{
    let key: &str = pin.table_key.as_str();
    if effect.table_key != pin.table_key || slot.table_key != pin.table_key {
        let identity: String = pin.identity.to_text();
        return Some(
            cat3(
                "BranchMerge identity ",
                identity.as_str(),
                " has inconsistent diagnostic aliases",
            ),
        );
    }
    if slot.expected_version != pin.expected_version || !same_opt(
        &slot.table_branch,
        &pin.table_branch,
    ) {
        return Some(
            cat3("intended-delta pre-state for '", key, "' does not match its physical table pin"),
        );
    }
    if !names_branch(&pin.table_branch) && effect.kind.source_fork_version().is_some() {
        return Some(
            cat3("first-touch effect '", key, "' does not name a non-main target ref"),
        );
    }
    match &effect.kind {
        RecoveryBranchMergeEffectKind::MultiCommitHead {
            source_fork_version,
            planned_transactions,
            ..
        } => {
            if let Some(version) = source_fork_version {
                if *version != pin.expected_version {
                    let fork: String = decimal_text(*version);
                    let expected: String = decimal_text(pin.expected_version);
                    return Some(
                        cat6(
                            "first-touch multi-commit effect '",
                            key,
                            "' forks from version ",
                            fork.as_str(),
                            ", pin expects ",
                            expected.as_str(),
                        ),
                    );
                }
            }
            if let Err(reason) = validate_branch_merge_transaction_chain(
                pin,
                planned_transactions,
                seen,
            ) {
                return Some(reason);
            }
        },
        RecoveryBranchMergeEffectKind::RefOnlyFork { .. } => {
            assert(views(seen@) + chain_uuids(chain_of(effect@.kind)) =~= views(seen@));
        },
    }
    check_confirmation(phase, pin, &effect.kind, slot)
}

/// Refuses the first pinned table whose effect or slot does not fit it.
fn check_tables(protocol: &RecoveryProtocolV4, pins: &Vec<SidecarTablePin>) -> (defect: Option<
    String,
>)
    requires
        effects_covered(protocol@, views(pins@)),
        first_defect(
            slot_findings(protocol.effect_phase, protocol@.intended_delta.table_updates),
        ) is None,
    ensures
        opt_view(defect) == first_defect(table_findings(protocol@, views(pins@))),
{
    let ghost models = views(pins@);
    let ghost findings = table_findings(protocol@, models);
    let mut seen: Vec<String> = Vec::new();
    assert(views(seen@) =~= uuids_before(protocol@, models, 0));
    let mut i: usize = 0;
    while i < pins.len()
        invariant
            i <= pins.len(),
            models == views(pins@),
            effects_covered(protocol@, models),
            first_defect(
                slot_findings(protocol.effect_phase, protocol@.intended_delta.table_updates),
            ) is None,
            findings == table_findings(protocol@, models),
            views(seen@) == uuids_before(protocol@, models, i as int),
            forall|j: int| 0 <= j < i ==> findings[j] is None,
        decreases pins.len() - i,
    {
        let pin: &SidecarTablePin = &pins[i];
        assert(models[i as int] == pin@);
        assert(identities::<SidecarTablePin>(models)[i as int] == pin.identity);
        if let Some(e) = place_of(&protocol.effects, pin.identity) {
            assert(identities::<RecoveryBranchMergeEffect>(protocol@.effects)[e as int]
                == pin.identity);
            if let Some(s) = place_of(&protocol.intended_delta.table_updates, pin.identity) {
                proof {
                    let slots = slot_findings(
                        protocol.effect_phase,
                        protocol@.intended_delta.table_updates,
                    );
                    lemma_all_sound(slots, s as int);
                    assert(slots[s as int] == slot_defect(
                        protocol.effect_phase,
                        protocol.intended_delta.table_updates@[s as int]@,
                    ));
                }
                let defect: Option<String> = check_table(
                    protocol.effect_phase,
                    pin,
                    &protocol.effects[e],
                    &protocol.intended_delta.table_updates[s],
                    &mut seen,
                );
                assert(opt_view(defect) == findings[i as int]);
                if defect.is_some() {
                    proof {
                        lemma_first_defect(findings, i as int);
                    }
                    return defect;
                }
            }
        }
        i += 1;
    }
    proof {
        lemma_no_defect(findings);
    }
    None
}

/// Finds the first rule that a branch-merge sidecar breaks.
fn find_defect(sidecar: &RecoverySidecar) -> (defect: Option<String>)
    ensures
        opt_view(defect) == branch_merge_v4_defect(sidecar@),
{
    if sidecar.writer_kind != SidecarKind::BranchMerge {
        return Some(
            cat2("protocol_v4 is only defined for BranchMerge, found ", sidecar.writer_kind.name()),
        );
    }
    if sidecar.protocol_v3.is_some() || sidecar.protocol_v7.is_some()
        || sidecar.protocol_v8.is_some() || sidecar.ensure_indices_rollback_v6.is_some() {
        return Some("schema-v4 BranchMerge sidecar carries another writer protocol".to_owned());
    }
    if sidecar.merge_source_commit_id.is_some() || !sidecar.additional_registrations.is_empty()
        || !sidecar.tombstones.is_empty() {
        return Some(
            "schema-v4 BranchMerge must carry lineage/delta only in protocol_v4".to_owned(),
        );
    }
    let protocol: &RecoveryProtocolV4 = match &sidecar.protocol_v4 {
        Some(protocol) => protocol,
        None => {
            return Some("missing required protocol_v4 payload".to_owned());
        },
    };
    let authority: Option<String> = validate_authority_identity(&protocol.authority);
    if authority.is_some() {
        return authority;
    }
    let delta = &protocol.intended_delta;
    if !delta.registrations.is_empty() || !delta.renames.is_empty() || !delta.tombstones.is_empty() {
        return Some("BranchMerge cannot register or tombstone tables".to_owned());
    }
    let lineage = &protocol.lineage;
    if !same_branch(&sidecar.branch, &lineage.branch) {
        return Some("sidecar branch does not match original merge lineage branch".to_owned());
    }
    if !same_opt(&sidecar.actor_id, &lineage.actor_id) {
        return Some("sidecar actor does not match original merge lineage actor".to_owned());
    }
    if lineage.merged_parent_commit_id.is_none() {
        return Some("BranchMerge lineage must carry the captured source commit".to_owned());
    }
    if protocol.rollback_graph_commit_id == lineage.graph_commit_id {
        return Some("original and rollback graph commit ids must differ".to_owned());
    }
    let pins: Option<String> = validate_unique_pin_identities(&sidecar.tables, true);
    if pins.is_some() {
        return pins;
    }
    if !identities_distinct(&protocol.effects) || !identities_distinct(&delta.table_updates)
        || !aliases_distinct(&delta.table_updates) || !identities_equal(
        &protocol.effects,
        &sidecar.tables,
    ) || !identities_within(&protocol.effects, &delta.table_updates) {
        return Some(
            "physical table pins/effects must be one-to-one and a subset of unique intended-delta slots".to_owned(),
        );
    }
    if !plan_is_sound(&protocol.rollback_audit_outcomes, &sidecar.tables) {
        return Some(
            "rollback audit outcomes must name a unique subset of physical table pins".to_owned(),
        );
    }
    let slots: Option<String> = check_slots(protocol.effect_phase, &delta.table_updates);
    if slots.is_some() {
        return slots;
    }
    check_tables(protocol, &sidecar.tables)
}

/// Refuses a branch-merge sidecar that breaks a rule of its shape.
pub fn validate_branch_merge_v4_shape(sidecar_uri: &str, sidecar: &RecoverySidecar) -> (result:
    Result<(), OmniError>)
    ensures
        fails_as(
            result,
            malformed_if(sidecar_uri@, sidecar.schema_version, branch_merge_v4_defect(sidecar@)),
        ),
{
    match find_defect(sidecar) {
        Some(reason) => Err(
            malformed_error(sidecar_uri, sidecar.schema_version, reason.as_str()),
        ),
        None => Ok(()),
    }
}

} // verus!
