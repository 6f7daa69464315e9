//! What the tables of an attempt are classified as, in terms of their heads and
//! histories.

use vstd::prelude::*;

use crate::classify::{class_of, mode_of, probe_matches, state_of, TableProbe};
use crate::history::{
    built_index, head_observation, merge_finding, merge_findings, merge_proof, ownership,
    BranchMergeMultiCommitProofModel, EffectOwnership, HeadReading, TableHistory, TableOperation,
};
use crate::error::OmniErrorModel;
use crate::laws::restoring::alias_before;
use crate::lookup::find_by_identity;
use crate::process::indices::{
    any_forked_ref, index_hazard, index_hazards, index_state, index_states, IndexReading, TargetRef,
};
use crate::process::merge::{
    data_table, merge_hazards, merge_mismatches, merged_table, observes, ref_only_table,
    MergeObservation, MergedTableModel,
};
use crate::process::schema::{schema_binding_faults, schema_state, schema_states};
use crate::shape::defect::{first_defect, lemma_all_sound, lemma_no_defect};
use crate::sidecar::{
    BranchIdentifierModel, RecoveryBranchMergeEffect, RecoveryBranchMergeEffectKindModel,
    RecoveryBranchMergeEffectModel, RecoveryEffectPhase, RecoveryEnsureIndicesEffect,
    RecoveryEnsureIndicesEffectModel, RecoveryProtocolV3Model, RecoveryProtocolV4Model,
    RecoveryProtocolV7Model, RecoveryProtocolV8Model, RecoverySchemaApplyEffect,
    RecoverySchemaApplyEffectKindModel, RecoverySchemaApplyEffectModel, RecoverySidecarModel,
    RecoveryTableEffect, RecoveryTableUpdateSlot, SidecarKind, SidecarTablePinModel,
    StagedTransactionIdentityModel,
};
use crate::snapshot::{bound_entry, SnapshotEntryModel, SnapshotModel};

verus! {

/// Whether a version of a table was committed by the transaction with an id.
pub open spec fn committed(history: TableHistory, version: int, uuid: Seq<char>) -> bool {
    match history.made(version) {
        Some(transaction) => transaction.identity.uuid == uuid,
        None => false,
    }
}

/// Whether a version of a table only sets it back to an earlier one.
pub open spec fn sets_back_to(history: TableHistory, version: int, target: u64) -> bool {
    match history.made(version) {
        Some(transaction) => transaction.operation == (TableOperation::Restore { version: target }),
        None => false,
    }
}

/// Whether the transaction with an id committed one of the versions from `first` up to
/// but without `end`.
pub open spec fn committed_within(
    history: TableHistory,
    first: int,
    end: int,
    uuid: Seq<char>,
) -> bool {
    exists|version: int| first <= version < end && #[trigger] committed(history, version, uuid)
}

/// Whether every version from `first` up to but without `end` can be read.
pub open spec fn read_within(history: TableHistory, first: int, end: int) -> bool {
    forall|version: int| first <= version < end ==> (#[trigger] history.made(version)) is Some
}

/// An effect is found wherever the planned transaction committed, between the first
/// version that it could make and the head: at the head, or under it, where a head
/// that sets the table back to the compensated version makes it undone. It is missing
/// where no version could be or was made by it; a version that cannot be read, or a
/// history that is too long to look at, leaves it open.
pub proof fn lemma_whose_commit_it_is(
    history: TableHistory,
    head: u64,
    first: u64,
    uuid: Seq<char>,
    compensation: u64,
)
    ensures
        ({
            let found = ownership(history, head, first, uuid, compensation);
            let near = first <= head && head - first < 1026;
            let before = committed_within(history, first as int, head as int, uuid);
            let at = committed(history, head as int, uuid);
            let undone = sets_back_to(history, head as int, compensation);
            let all_read = read_within(history, first as int, head + 1);
            &&& found is OwnAtHead <==> near && at && !before
            &&& found is OwnBeforeHead <==> near && before && !undone
            &&& found is OwnCompensatedAtHead <==> near && before && undone
            &&& found is Absent <==> head < first || near && !before && !at && all_read
            &&& found is Unverifiable <==> head - first >= 1026 || near && !before && !at
                && !all_read
        }),
{
    if committed_within(history, first as int, head as int, uuid) {
        let version = choose|version: int|
            first <= version < head && #[trigger] committed(history, version, uuid);
        assert(crate::history::made_by(history, version, uuid));
    }
    if crate::history::made_before(history, first as int, head as int, uuid) {
        let version = choose|version: int|
            first <= version < head && #[trigger] crate::history::made_by(history, version, uuid);
        assert(committed(history, version, uuid));
    }
    if crate::history::gap_within(history, first as int, head + 1) {
        let version = choose|version: int|
            first <= version < head + 1 && #[trigger] history.made(version) is None;
        assert(!read_within(history, first as int, head + 1));
    }
}

/// The head of a table is read at its version. Who made it is looked up only for a
/// planned effect: without one nothing is found.
pub proof fn lemma_what_a_head_shows(
    reading: HeadReading,
    first: u64,
    uuid: Seq<char>,
    compensation: u64,
)
    ensures
        ({
            let planned = head_observation(reading, Some((first, uuid, compensation)));
            let plain = head_observation(reading, None);
            let made = reading.history.made(reading.version as int);
            &&& planned.version == reading.version
            &&& plain.version == reading.version
            &&& plain.transaction is None
            &&& plain.effect_ownership is Absent
            &&& planned.transaction is Some <==> made is Some
            &&& made is Some ==> planned.transaction->0 == made->0.identity
            &&& planned.effect_ownership == ownership(
                reading.history,
                reading.version,
                first,
                uuid,
                compensation,
            )
        }),
{
}

/// Whether a writer of a generation says exactly which transaction it commits.
pub open spec fn says_exactly(kind: SidecarKind, generation: u32) -> bool {
    match kind {
        SidecarKind::Mutation | SidecarKind::Load => generation >= 3,
        SidecarKind::SchemaApply => generation >= 7,
        SidecarKind::EnsureIndices => generation >= 8,
        SidecarKind::BranchMerge => false,
        SidecarKind::Optimize => false,
    }
}

/// Whether a writer of a generation confirms the head that it reached.
pub open spec fn says_where(kind: SidecarKind, generation: u32) -> bool {
    kind == SidecarKind::BranchMerge && generation >= 2
}

/// Whether a writer of a generation makes one commit for each table.
pub open spec fn says_one(kind: SidecarKind, generation: u32) -> bool {
    (kind == SidecarKind::Mutation || kind == SidecarKind::Load) && generation < 3
}

/// Whether the payload confirmed a table at a head, by the one transaction that was
/// planned for it and that made the head.
pub open spec fn confirmed_at(
    payload: RecoveryProtocolV3Model,
    pin: SidecarTablePinModel,
    head: u64,
    maker: Option<StagedTransactionIdentityModel>,
) -> bool {
    let effect = find_by_identity::<RecoveryTableEffect>(payload.effects, pin.identity);
    &&& effect is Some
    &&& effect->0.confirmed_transaction == Some(effect->0.planned_transaction)
    &&& maker == Some(effect->0.planned_transaction)
}

/// Whether both parts of a payload confirm a table.
pub open spec fn confirmed_both(
    payload: RecoveryProtocolV3Model,
    pin: SidecarTablePinModel,
) -> bool {
    let effect = find_by_identity::<RecoveryTableEffect>(payload.effects, pin.identity);
    let slot = find_by_identity::<RecoveryTableUpdateSlot>(
        payload.intended_delta.table_updates,
        pin.identity,
    );
    &&& payload.effect_phase == RecoveryEffectPhase::EffectsConfirmed
    &&& effect is Some
    &&& effect->0.confirmed_transaction is Some
    &&& slot is Some
    &&& slot->0.confirmed is Some
}

/// Whether a table stands at the version that was confirmed for it, over the version
/// that the attempt started from.
pub open spec fn stands_as_confirmed(
    payload: RecoveryProtocolV3Model,
    pin: SidecarTablePinModel,
    head: u64,
    manifest_pinned: u64,
) -> bool {
    let slot = find_by_identity::<RecoveryTableUpdateSlot>(
        payload.intended_delta.table_updates,
        pin.identity,
    );
    &&& manifest_pinned == pin.expected_version
    &&& pin.confirmed_version == Some(head)
    &&& slot->0.confirmed->0.table_version == head
}

/// What a table that is past the manifest is classified as follows from what its
/// writer said in advance. One commit: it reached its goal by exactly that one. A
/// confirmed head: by being there. An exact transaction: by both parts of the payload
/// having confirmed it, at this head, made by this transaction. Nothing: by any
/// advance over the version that it started from.
pub proof fn lemma_when_a_table_reached_its_goal(
    kind: SidecarKind,
    generation: u32,
    pin: SidecarTablePinModel,
    head: u64,
    maker: Option<StagedTransactionIdentityModel>,
    manifest_pinned: u64,
    protocol: Option<RecoveryProtocolV3Model>,
)
    requires
        head > manifest_pinned,
    ensures
        ({
            let class = class_of(
                pin,
                head,
                maker,
                manifest_pinned,
                mode_of(kind, generation),
                protocol,
            );
            let based = pin.expected_version == manifest_pinned;
            let one = head - manifest_pinned == 1;
            if says_one(kind, generation) {
                &&& class is RolledPastExpected <==> one && based && pin.post_commit_pin == head
                &&& class is UnexpectedAtP1 <==> one && !(based && pin.post_commit_pin == head)
                &&& class is UnexpectedMultistep <==> !one
            } else if says_where(kind, generation) {
                &&& class is RolledPastExpected <==> based && pin.confirmed_version == Some(head)
                &&& class is IncompletePhaseB <==> pin.confirmed_version is None
                &&& class is UnexpectedMultistep <==> pin.confirmed_version is Some && !(based
                    && pin.confirmed_version->0 == head)
            } else if says_exactly(kind, generation) {
                let told = protocol is Some && confirmed_both(protocol->0, pin);
                let there = stands_as_confirmed(protocol->0, pin, head, manifest_pinned);
                let own = confirmed_at(protocol->0, pin, head, maker);
                &&& class is RolledPastExpected <==> told && there && own
                &&& class is IncompletePhaseB <==> !told
                &&& class is UnexpectedEffectIdentity <==> told && there && !own
                &&& class is UnexpectedAtP1 <==> told && !there && one
                &&& class is UnexpectedMultistep <==> told && !there && !one
            } else {
                &&& class is RolledPastExpected <==> based
                &&& class is UnexpectedAtP1 <==> !based && one
                &&& class is UnexpectedMultistep <==> !based && !one
            }
        }),
{
}

/// The version that the manifest selects of a table; none is version zero.
pub open spec fn selected(entry: Option<SnapshotEntryModel>) -> u64 {
    if entry is Some {
        entry->0.table.table_version
    } else {
        0
    }
}

/// Whether the manifest has a table on the very branch that a pin is on.
pub open spec fn on_branch(entry: Option<SnapshotEntryModel>, pin: SidecarTablePinModel) -> bool {
    entry is Some && entry->0.table.table_branch == pin.table_branch
}

/// Whether a pin is on a branch of its own.
pub open spec fn off_main(pin: SidecarTablePinModel) -> bool {
    pin.table_branch is Some && pin.table_branch->0 != "main"@
}

/// The state of a table holds the version that the manifest selects and the head. One
/// that cannot be opened did not move. It is an unpublished fork exactly where an
/// exact mutation or load, or an ensure-indices run, works on its own branch and the
/// manifest does not have the table there.
pub proof fn lemma_state_of_a_table(
    sidecar: RecoverySidecarModel,
    pin: SidecarTablePinModel,
    entry: Option<SnapshotEntryModel>,
    reading: Option<HeadReading>,
)
    ensures
        ({
            let state = state_of(sidecar, pin, entry, reading);
            let effects = (sidecar.protocol_v3->0).effects;
            let effect = find_by_identity::<RecoveryTableEffect>(effects, pin.identity);
            let planned = sidecar.protocol_v3 is Some && effect is Some;
            let maker = if planned && reading is Some && reading->0.history.made(
                reading->0.version as int,
            ) is Some {
                Some(reading->0.history.made(reading->0.version as int)->0.identity)
            } else {
                None
            };
            &&& state.manifest_pinned == selected(entry)
            &&& state.lance_head == (if reading is Some {
                reading->0.version
            } else {
                selected(entry)
            })
            &&& state.unpublished_fork <==> (sidecar.protocol_v3 is Some || sidecar.writer_kind
                == SidecarKind::EnsureIndices) && off_main(pin) && sidecar.branch
                == pin.table_branch && !on_branch(entry, pin)
            &&& state.effect_ownership == (if planned && reading is Some {
                ownership(
                    reading->0.history,
                    reading->0.version,
                    pin.post_commit_pin,
                    effect->0.planned_transaction.uuid,
                    selected(entry),
                )
            } else {
                EffectOwnership::Absent
            })
            &&& state.classification == class_of(
                pin,
                state.lance_head,
                maker,
                selected(entry),
                mode_of(sidecar.writer_kind, sidecar.schema_version),
                sidecar.protocol_v3,
            )
        }),
{
}

/// The transaction that a schema apply planned for a table.
pub open spec fn rewrite_of(effect: RecoverySchemaApplyEffectModel) -> StagedTransactionIdentityModel {
    match effect.kind {
        RecoverySchemaApplyEffectKindModel::ExistingOverwrite { planned_transaction, .. } =>
            planned_transaction,
        RecoverySchemaApplyEffectKindModel::FirstTouchDataset { planned_transaction, .. } =>
            planned_transaction,
    }
}

/// The transaction that a schema apply confirmed for a table.
pub open spec fn rewritten_by(effect: RecoverySchemaApplyEffectModel) -> Option<
    StagedTransactionIdentityModel,
> {
    match effect.kind {
        RecoverySchemaApplyEffectKindModel::ExistingOverwrite { confirmed_transaction, .. } =>
            confirmed_transaction,
        RecoverySchemaApplyEffectKindModel::FirstTouchDataset { confirmed_transaction, .. } =>
            confirmed_transaction,
    }
}

/// The head that was read of a table; one that is not there has version zero.
pub open spec fn head_of(reading: Option<HeadReading>, missing: u64) -> u64 {
    if reading is Some {
        reading->0.version
    } else {
        missing
    }
}

/// How far a planned transaction is found in what was read of a table.
pub open spec fn found_in(
    reading: Option<HeadReading>,
    pin: SidecarTablePinModel,
    planned: StagedTransactionIdentityModel,
    manifest_pinned: u64,
) -> EffectOwnership {
    if reading is Some {
        ownership(
            reading->0.history,
            reading->0.version,
            pin.post_commit_pin,
            planned.uuid,
            manifest_pinned,
        )
    } else {
        EffectOwnership::Absent
    }
}

/// Whether the head that was read was made by a transaction.
pub open spec fn head_made_by(
    reading: Option<HeadReading>,
    transaction: StagedTransactionIdentityModel,
) -> bool {
    &&& reading is Some
    &&& reading->0.history.made(reading->0.version as int) is Some
    &&& reading->0.history.made(reading->0.version as int)->0.identity == transaction
}

/// Whether the effect is at the head or undone there.
pub open spec fn on_top(ownership: EffectOwnership) -> bool {
    ownership is OwnAtHead || ownership is OwnCompensatedAtHead
}

/// A table of a schema apply reached its goal exactly where the apply confirmed it, in
/// its effect, its pin and its delta, at this head, made by the transaction that was
/// planned, over the version that the apply started from. A dataset that the apply
/// creates is an unpublished fork until the manifest has it.
pub proof fn lemma_state_of_a_rewritten_table(
    payload: RecoveryProtocolV7Model,
    pin: SidecarTablePinModel,
    effect: RecoverySchemaApplyEffectModel,
    entry: Option<SnapshotEntryModel>,
    reading: Option<HeadReading>,
)
    ensures
        ({
            let state = schema_state(payload, pin, effect, entry, reading);
            let pinned = selected(entry);
            let head = head_of(reading, 0);
            let found = found_in(reading, pin, rewrite_of(effect), pinned);
            let slot = find_by_identity::<RecoveryTableUpdateSlot>(
                payload.intended_delta.table_updates,
                pin.identity,
            );
            let done = {
                &&& payload.effect_phase == RecoveryEffectPhase::EffectsConfirmed
                &&& found is OwnAtHead
                &&& rewritten_by(effect) == Some(rewrite_of(effect))
                &&& head_made_by(reading, rewrite_of(effect))
                &&& pin.confirmed_version == Some(head)
                &&& slot is Some
                &&& slot->0.confirmed is Some
                &&& slot->0.confirmed->0.table_version == head
                &&& pinned == pin.expected_version
            };
            let class = state.classification;
            &&& state.manifest_pinned == pinned
            &&& state.lance_head == head
            &&& state.effect_ownership == found
            &&& state.unpublished_fork <==> effect.kind is FirstTouchDataset && entry is None
            &&& class is InvariantViolation <==> head < pinned
            &&& class is NoMovement <==> head == pinned && found is Absent
            &&& class is RolledPastExpected <==> head > pinned && done
            &&& class is IncompletePhaseB <==> head > pinned && payload.effect_phase
                == RecoveryEffectPhase::Armed && on_top(found)
            &&& class is UnexpectedEffectIdentity <==> head == pinned && !(found is Absent) || head
                > pinned && !done && !(payload.effect_phase == RecoveryEffectPhase::Armed && on_top(
                found,
            ))
        }),
{
}

/// A table of an ensure-indices run reached its goal exactly where the run confirmed
/// it, in its effect, its pin and its delta, at this head, made by the transaction that
/// was planned, over the version that the run started from, and on a branch that was
/// confirmed where the run forked it. A table whose target branch is missing did not
/// move.
pub proof fn lemma_state_of_an_indexed_table(
    payload: RecoveryProtocolV8Model,
    pin: SidecarTablePinModel,
    effect: RecoveryEnsureIndicesEffectModel,
    entry: Option<SnapshotEntryModel>,
    reading: IndexReading,
)
    ensures
        ({
            let state = index_state(payload, pin, effect, entry, reading);
            let pinned = selected(entry);
            let opened = if reading.target is Some {
                reading.head
            } else {
                None
            };
            let head = head_of(opened, pinned);
            let found = found_in(opened, pin, effect.planned_transaction, pinned);
            let slot = find_by_identity::<RecoveryTableUpdateSlot>(
                payload.intended_delta.table_updates,
                pin.identity,
            );
            let done = {
                &&& payload.effect_phase == RecoveryEffectPhase::EffectsConfirmed
                &&& found is OwnAtHead
                &&& effect.confirmed_transaction == Some(effect.planned_transaction)
                &&& head_made_by(opened, effect.planned_transaction)
                &&& pin.confirmed_version == Some(head)
                &&& slot is Some
                &&& slot->0.confirmed is Some
                &&& slot->0.confirmed->0.table_version == head
                &&& effect.source_fork_version is None || effect.confirmed_branch_identifier is Some
                &&& pinned == pin.expected_version
            };
            let class = state.classification;
            &&& state.manifest_pinned == pinned
            &&& state.lance_head == head
            &&& state.effect_ownership == found
            &&& state.unpublished_fork <==> effect.source_fork_version is Some && !on_branch(
                entry,
                pin,
            )
            &&& class is InvariantViolation <==> head < pinned
            &&& class is NoMovement <==> head == pinned && found is Absent
            &&& class is RolledPastExpected <==> head > pinned && done
            &&& class is IncompletePhaseB <==> head > pinned && !done && on_top(found)
            &&& class is UnexpectedEffectIdentity <==> head == pinned && !(found is Absent) || head
                > pinned && !done && !on_top(found)
        }),
{
}

/// Something speaks against recovering a table of an ensure-indices run exactly where
/// its branch is gone and the run did not fork it, was forked at another version or is
/// another one than confirmed, or where the commit of the run cannot be shown to have
/// built an index.
pub proof fn lemma_what_speaks_against_an_indexed_table(
    payload: RecoveryProtocolV8Model,
    pin: SidecarTablePinModel,
    effect: RecoveryEnsureIndicesEffectModel,
    entry: Option<SnapshotEntryModel>,
    reading: IndexReading,
)
    ensures
        ({
            let hazard = index_hazard(pin, effect, selected(entry), reading);
            let forks = effect.source_fork_version is Some;
            let target = reading.target->0;
            let found = found_in(
                reading.head,
                pin,
                effect.planned_transaction,
                selected(entry),
            );
            if reading.target is None {
                hazard is Some <==> !forks
            } else {
                hazard is Some <==> {
                    ||| forks && target.parent_version != effect.source_fork_version
                    ||| forks && effect.confirmed_branch_identifier is Some
                        && effect.confirmed_branch_identifier->0 != target.branch_identifier@
                    ||| !(found is Absent) && !built_index(
                        target.head.history,
                        target.head.version,
                        effect.planned_transaction,
                    )
                }
            }
        }),
{
}

/// An index was built exactly where the first commit with the planned id, after the
/// version that it read and with everything before it readable, built one.
pub proof fn lemma_when_an_index_was_built(
    history: TableHistory,
    head: u64,
    planned: StagedTransactionIdentityModel,
    version: int,
)
    requires
        planned.read_version < version <= head,
        read_within(history, planned.read_version + 1, version),
        !committed_within(history, planned.read_version + 1, version, planned.uuid),
        committed(history, version, planned.uuid),
    ensures
        built_index(history, head, planned) <==> head - planned.read_version <= 1026
            && history.made(version)->0.operation is CreateIndex,
{
    let first = planned.read_version + 1;
    assert(crate::history::made_by(history, version, planned.uuid));
    if crate::history::made_before(history, first, version, planned.uuid) {
        let v = choose|v: int|
            first <= v < version && #[trigger] crate::history::made_by(history, v, planned.uuid);
        assert(committed(history, v, planned.uuid));
    }
    if crate::history::gap_within(history, first, version) {
        let v = choose|v: int| first <= v < version && #[trigger] history.made(v) is None;
        assert(!read_within(history, first, version));
    }
    if built_index(history, head, planned) {
        let other = choose|other: int|
            {
                &&& first <= other <= head
                &&& #[trigger] crate::history::made_by(history, other, planned.uuid)
                &&& history.made(other)->0.operation == TableOperation::CreateIndex
                &&& !crate::history::gap_within(history, first, other)
                &&& !crate::history::made_before(history, first, other, planned.uuid)
            };
        if other < version {
            assert(committed(history, other, planned.uuid));
        } else if version < other {
            assert(crate::history::made_before(history, first, other, planned.uuid));
        }
    }
}

/// Without a readable commit of the planned id, no index was built.
pub proof fn lemma_when_no_index_was_built(
    history: TableHistory,
    head: u64,
    planned: StagedTransactionIdentityModel,
)
    requires
        !committed_within(history, planned.read_version + 1, head + 1, planned.uuid),
    ensures
        !built_index(history, head, planned),
{
    if built_index(history, head, planned) {
        let first = planned.read_version + 1;
        let other = choose|other: int|
            {
                &&& first <= other <= head
                &&& #[trigger] crate::history::made_by(history, other, planned.uuid)
                &&& history.made(other)->0.operation == TableOperation::CreateIndex
                &&& !crate::history::gap_within(history, first, other)
                &&& !crate::history::made_before(history, first, other, planned.uuid)
            };
        assert(committed(history, other, planned.uuid));
    }
}

/// Whether a version of a merged table is as it may be: the planned transactions in
/// order, one index commit behind them, and at the head, over at least one commit,
/// the setting back of the table.
pub open spec fn as_merged(
    history: TableHistory,
    head: u64,
    planned: Seq<StagedTransactionIdentityModel>,
    manifest_pinned: u64,
    version: int,
) -> bool {
    let place = version - planned[0].read_version - 1;
    let made = history.made(version);
    &&& made is Some
    &&& {
        ||| version == head && place > 0 && made->0.operation == (TableOperation::Restore {
            version: manifest_pinned,
        })
        ||| place < planned.len() && made->0.identity == planned[place]
        ||| place == planned.len() && made->0.operation is CreateIndex
    }
}

/// The commits of a branch merge on a table are recognized exactly where every version
/// from the one that the merge read up to the head is as it may be. Nothing happened
/// where there is none. They are undone where the head sets the table back, and
/// otherwise complete where all planned transactions are there. Anything else speaks
/// against acting on the table.
pub proof fn lemma_what_a_merge_left(
    history: TableHistory,
    head: u64,
    planned: Seq<StagedTransactionIdentityModel>,
    manifest_pinned: u64,
    table_key: Seq<char>,
)
    requires
        planned.len() > 0,
        forall|k: int|
            0 <= k < planned.len() ==> (#[trigger] planned[k]).read_version
                == planned[0].read_version + k,
    ensures
        ({
            let result = merge_proof(history, head, planned, manifest_pinned, table_key);
            let proven = result->Ok_0;
            let base = planned[0].read_version;
            let clean = base < head && head - base <= 1026 && forall|version: int|
                base < version <= head ==> #[trigger] as_merged(
                    history,
                    head,
                    planned,
                    manifest_pinned,
                    version,
                );
            let undone = head - base > 1 && sets_back_to(history, head as int, manifest_pinned);
            &&& result is Ok
            &&& proven.unsafe_reason is None <==> head == base || clean
            &&& proven.effect_ownership is Absent <==> head == base
            &&& proven.effect_ownership is OwnCompensatedAtHead <==> clean && undone
            &&& proven.effect_ownership is OwnAtHead <==> clean && !undone
            &&& proven.effect_ownership is Unverifiable <==> head != base && !clean
            &&& proven.full_effect_at_head <==> clean && !undone && head - base >= planned.len()
        }),
{
    let base = planned[0].read_version;
    if base < head && head - base <= 1026 {
        let findings = merge_findings(history, head, planned, manifest_pinned, table_key);
        assert forall|version: int| base < version <= head implies (#[trigger] as_merged(
            history,
            head,
            planned,
            manifest_pinned,
            version,
        ) <==> merge_finding(history, head, planned, manifest_pinned, table_key, version)
            is None) by {
            let place = version - base - 1;
            if place < planned.len() {
                assert(planned[place].read_version == base + place);
            }
        }
        assert forall|version: int| base < version <= head implies !((#[trigger] merge_finding(
            history,
            head,
            planned,
            manifest_pinned,
            table_key,
            version,
        )) matches Some(crate::history::MergeFinding::Broken(_))) by {
            let place = version - base - 1;
            if place < planned.len() {
                assert(planned[place].read_version == base + place);
            }
        }
        if first_defect(findings) is None {
            assert forall|version: int| base < version <= head implies #[trigger] as_merged(
                history,
                head,
                planned,
                manifest_pinned,
                version,
            ) by {
                lemma_all_sound(findings, version - base - 1);
                assert(findings[version - base - 1] is None);
            }
        }
        if forall|version: int|
            base < version <= head ==> #[trigger] as_merged(
                history,
                head,
                planned,
                manifest_pinned,
                version,
            ) {
            assert forall|i: int| 0 <= i < findings.len() implies (#[trigger] findings[i])
                is None by {
                assert(as_merged(history, head, planned, manifest_pinned, base + 1 + i));
            }
            lemma_no_defect(findings);
        }
        lemma_reported_is_the_first(findings);
    }
}

/// The branch that a merge forked a table at, where it did.
pub open spec fn forked_at(effect: RecoveryBranchMergeEffectModel) -> Option<u64> {
    match effect.kind {
        RecoveryBranchMergeEffectKindModel::MultiCommitHead { source_fork_version, .. } =>
            source_fork_version,
        RecoveryBranchMergeEffectKindModel::RefOnlyFork { source_version, .. } => Some(
            source_version,
        ),
    }
}

/// The branch that a merge confirmed, once it did.
pub open spec fn confirmed_ref(effect: RecoveryBranchMergeEffectModel) -> Option<
    BranchIdentifierModel,
> {
    match effect.kind {
        RecoveryBranchMergeEffectKindModel::MultiCommitHead { confirmed_branch_identifier, .. } =>
            confirmed_branch_identifier,
        RecoveryBranchMergeEffectKindModel::RefOnlyFork { confirmed_branch_identifier, .. } =>
            confirmed_branch_identifier,
    }
}

/// Whether the target branch of a merged table is the one that the merge works on: the
/// manifest selects what the merge started from, a branch that was there still is, and
/// one that the merge forked starts where it was forked and is the confirmed one.
pub open spec fn on_its_ref(
    pin: SidecarTablePinModel,
    effect: RecoveryBranchMergeEffectModel,
    manifest_pinned: u64,
    target: Option<TargetRef>,
) -> bool {
    &&& manifest_pinned == pin.expected_version
    &&& target is None ==> forked_at(effect) is Some
    &&& target is Some && forked_at(effect) is Some ==> {
        &&& target->0.parent_version == forked_at(effect)
        &&& confirmed_ref(effect) is Some ==> confirmed_ref(effect)->0
            == target->0.branch_identifier@
    }
}

/// A table that a merge commits data to is complete exactly where the merge was
/// confirmed, all its transactions are at the head, and the head is the confirmed one,
/// in the effect and in the pin. A confirmed table that is neither complete nor undone
/// is a mismatch. Nobody may act where the branch is another one, the head is behind
/// what the merge started from, or its commits are not recognized.
pub proof fn lemma_state_of_a_merged_table(
    payload: RecoveryProtocolV4Model,
    pin: SidecarTablePinModel,
    effect: RecoveryBranchMergeEffectModel,
    entry: Option<SnapshotEntryModel>,
    target: Option<TargetRef>,
    confirmed_version: Option<u64>,
    proven: BranchMergeMultiCommitProofModel,
)
    ensures
        ({
            let table = data_table(payload, pin, effect, entry, target, confirmed_version, proven);
            let pinned = selected(entry);
            let head = if target is Some {
                target->0.head.version
            } else {
                pinned
            };
            let confirmed = payload.effect_phase == RecoveryEffectPhase::EffectsConfirmed;
            &&& table.state.manifest_pinned == pinned
            &&& table.state.lance_head == head
            &&& table.state.effect_ownership == proven.effect_ownership
            &&& table.state.unpublished_fork <==> off_main(pin) && !on_branch(entry, pin)
            &&& table.moved <==> head > pin.expected_version
            &&& table.physical <==> head > pin.expected_version || target is Some && forked_at(
                effect,
            ) is Some
            &&& table.complete <==> confirmed && proven.full_effect_at_head && confirmed_version
                == Some(head) && pin.confirmed_version == Some(head)
            &&& table.state.classification is RolledPastExpected <==> table.complete
            &&& table.state.classification is IncompletePhaseB <==> !table.complete && head
                > pin.expected_version
            &&& table.state.classification is NoMovement <==> !table.complete && head
                <= pin.expected_version
            &&& table.mismatch is Some <==> confirmed && !table.complete
                && !(proven.effect_ownership is OwnCompensatedAtHead)
            &&& table.hazard is None <==> on_its_ref(pin, effect, pinned, target) && head
                >= pin.expected_version && proven.unsafe_reason is None
        }),
{
}

/// A table that a merge only forks never moves. It is complete exactly where the merge
/// was confirmed and the branch stands at the version that it was forked at, in what
/// was observed and in the pin; a confirmed one that does not is a mismatch.
pub proof fn lemma_state_of_a_forked_table(
    payload: RecoveryProtocolV4Model,
    pin: SidecarTablePinModel,
    effect: RecoveryBranchMergeEffectModel,
    entry: Option<SnapshotEntryModel>,
    target: Option<TargetRef>,
    source_version: u64,
)
    ensures
        ({
            let table = ref_only_table(payload, pin, effect, entry, target, source_version);
            let pinned = selected(entry);
            let confirmed = payload.effect_phase == RecoveryEffectPhase::EffectsConfirmed;
            &&& table.state.manifest_pinned == pinned
            &&& table.state.lance_head == pinned
            &&& table.state.effect_ownership is Absent
            &&& table.state.unpublished_fork <==> off_main(pin) && !on_branch(entry, pin)
            &&& !table.moved
            &&& table.physical <==> target is Some && forked_at(effect) is Some
            &&& table.complete <==> confirmed && target is Some && target->0.head.version
                == source_version && pin.confirmed_version == Some(source_version)
            &&& table.state.classification is RolledPastExpected <==> table.complete
            &&& table.state.classification is IncompletePhaseB <==> !table.complete && target is Some
            &&& table.state.classification is NoMovement <==> target is None
            &&& table.mismatch is Some <==> confirmed && !table.complete
            &&& table.hazard is None <==> on_its_ref(pin, effect, pinned, target)
        }),
{
}

/// A merged table is judged by the effect that the payload holds for it, over what the
/// manifest has of it: a data table by the chain of its transactions, where its branch
/// is there, and a table that is only forked by its branch.
pub proof fn lemma_merged_table_by_its_effect(
    snapshot: SnapshotModel,
    payload: RecoveryProtocolV4Model,
    pin: SidecarTablePinModel,
    target: Option<TargetRef>,
)
    requires
        bound_entry(snapshot, pin.identity, pin.table_key) is Ok,
    ensures
        ({
            let effect = find_by_identity::<RecoveryBranchMergeEffect>(
                payload.effects,
                pin.identity,
            )->0;
            let entry = bound_entry(snapshot, pin.identity, pin.table_key)->Ok_0;
            let result = merged_table(snapshot, payload, pin, target);
            match effect.kind {
                RecoveryBranchMergeEffectKindModel::RefOnlyFork { source_version, .. } => result
                    == Ok::<MergedTableModel, OmniErrorModel>(
                    ref_only_table(payload, pin, effect, entry, target, source_version),
                ),
                RecoveryBranchMergeEffectKindModel::MultiCommitHead {
                    planned_transactions,
                    confirmed_version,
                    ..
                } => if target is None {
                    result == Ok::<MergedTableModel, OmniErrorModel>(
                        data_table(
                            payload,
                            pin,
                            effect,
                            entry,
                            target,
                            confirmed_version,
                            (BranchMergeMultiCommitProofModel {
                                effect_ownership: EffectOwnership::Absent,
                                full_effect_at_head: false,
                                unsafe_reason: None,
                            }),
                        ),
                    )
                } else {
                    let proven = merge_proof(
                        target->0.head.history,
                        target->0.head.version,
                        planned_transactions,
                        selected(entry),
                        pin.table_key,
                    );
                    &&& result is Ok <==> proven is Ok
                    &&& result is Ok ==> result->Ok_0 == data_table(
                        payload,
                        pin,
                        effect,
                        entry,
                        target,
                        confirmed_version,
                        proven->Ok_0,
                    )
                },
            }
        }),
{
    reveal(merged_table);
}

/// What is observed of a merge is what holds of its tables: something speaks against
/// it where something speaks against one of them, it left something or moved where one
/// of them did, and it is complete where it was confirmed and every one of them is.
pub proof fn lemma_what_a_merge_shows(
    observation: MergeObservation,
    payload: RecoveryProtocolV4Model,
    tables: Seq<Result<MergedTableModel, OmniErrorModel>>,
)
    requires
        observes(observation, payload, tables),
    ensures
        observation.states@.len() == tables.len(),
        forall|i: int|
            0 <= i < tables.len() ==> observation.states@[i] == (#[trigger] tables[i])->Ok_0.state,
        observation.hazard is None <==> (forall|i: int|
            0 <= i < tables.len() ==> (#[trigger] tables[i])->Ok_0.hazard is None),
        observation.mismatch is None <==> (forall|i: int|
            0 <= i < tables.len() ==> (#[trigger] tables[i])->Ok_0.mismatch is None),
        observation.physical <==> (exists|i: int|
            0 <= i < tables.len() && (#[trigger] tables[i])->Ok_0.physical),
        observation.moved <==> (exists|i: int|
            0 <= i < tables.len() && (#[trigger] tables[i])->Ok_0.moved),
        observation.complete <==> payload.effect_phase == RecoveryEffectPhase::EffectsConfirmed && (
        forall|i: int| 0 <= i < tables.len() ==> (#[trigger] tables[i])->Ok_0.complete),
{
    let hazards = merge_hazards(tables);
    let mismatches = merge_mismatches(tables);
    lemma_reported_is_the_first(hazards);
    lemma_reported_is_the_first(mismatches);
    assert forall|i: int| 0 <= i < tables.len() implies hazards[i] == (
    #[trigger] tables[i])->Ok_0.hazard && mismatches[i] == tables[i]->Ok_0.mismatch by {}
    if observation.hazard is None {
        assert forall|i: int| 0 <= i < tables.len() implies (
        #[trigger] tables[i])->Ok_0.hazard is None by {
            assert(hazards[i] is None);
        }
    }
    if observation.mismatch is None {
        assert forall|i: int| 0 <= i < tables.len() implies (
        #[trigger] tables[i])->Ok_0.mismatch is None by {
            assert(mismatches[i] is None);
        }
    }
}

/// Of several findings the first defect is reported: one is reported exactly where
/// there is one, and nothing before it is a defect.
pub proof fn lemma_reported_is_the_first<A>(findings: Seq<Option<A>>)
    ensures
        first_defect(findings) is None <==> (forall|i: int|
            0 <= i < findings.len() ==> (#[trigger] findings[i]) is None),
        first_defect(findings) is Some ==> exists|i: int|
            {
                &&& 0 <= i < findings.len()
                &&& #[trigger] findings[i] == first_defect(findings)
                &&& forall|j: int| 0 <= j < i ==> (#[trigger] findings[j]) is None
            },
    decreases findings.len(),
{
    if findings.len() > 0 {
        let rest = findings.drop_first();
        lemma_reported_is_the_first(rest);
        assert forall|i: int| 0 < i < findings.len() implies rest[i - 1] == #[trigger] findings[i]
            by {}
        if findings[0] is None {
            if first_defect(rest) is Some {
                let k = choose|k: int|
                    {
                        &&& 0 <= k < rest.len()
                        &&& #[trigger] rest[k] == first_defect(rest)
                        &&& forall|j: int| 0 <= j < k ==> (#[trigger] rest[j]) is None
                    };
                assert(findings[k + 1] == first_defect(findings));
                assert forall|j: int| 0 <= j < k + 1 implies (#[trigger] findings[j]) is None by {
                    if j > 0 {
                        assert(rest[j - 1] is None);
                    }
                }
            } else {
                assert forall|i: int| 0 <= i < findings.len() implies (#[trigger] findings[i])
                    is None by {
                    if i > 0 {
                        assert(rest[i - 1] is None);
                    }
                }
            }
        }
    }
}

/// The tables of a schema apply are looked at one by one, each by its own effect and its own
/// reading, over what the manifest has of it under the alias that it had before; they are
/// looked at exactly where each of them binds.
pub proof fn lemma_rewritten_tables_one_by_one(
    snapshot: SnapshotModel,
    pins: Seq<SidecarTablePinModel>,
    payload: RecoveryProtocolV7Model,
    readings: Seq<Option<HeadReading>>,
)
    ensures
        ({
            let states = schema_states(snapshot, pins, payload, readings);
            let alias = |i: int| alias_before(payload.intended_delta.renames, pins[i]);
            &&& first_defect(schema_binding_faults(snapshot, pins, payload)) is None <==> (forall|
                i: int,
            |
                0 <= i < pins.len() ==> bound_entry(
                    snapshot,
                    (#[trigger] pins[i]).identity,
                    alias(i),
                ) is Ok)
            &&& states.len() == pins.len()
            &&& forall|i: int|
                0 <= i < pins.len() ==> #[trigger] states[i] == schema_state(
                    payload,
                    pins[i],
                    find_by_identity::<RecoverySchemaApplyEffect>(
                        payload.effects,
                        pins[i].identity,
                    )->0,
                    bound_entry(snapshot, pins[i].identity, alias(i))->Ok_0,
                    readings[i],
                )
        }),
{
    let faults = schema_binding_faults(snapshot, pins, payload);
    lemma_reported_is_the_first(faults);
    let alias = |i: int| alias_before(payload.intended_delta.renames, pins[i]);
    assert forall|i: int| 0 <= i < pins.len() implies (#[trigger] faults[i] is None
        <==> bound_entry(snapshot, pins[i].identity, alias(i)) is Ok) by {}
    if first_defect(faults) is None {
        assert forall|i: int| 0 <= i < pins.len() implies bound_entry(
            snapshot,
            (#[trigger] pins[i]).identity,
            alias(i),
        ) is Ok by {
            assert(faults[i] is None);
        }
    } else {
        let i = choose|i: int|
            {
                &&& 0 <= i < faults.len()
                &&& #[trigger] faults[i] == first_defect(faults)
                &&& forall|j: int| 0 <= j < i ==> (#[trigger] faults[j]) is None
            };
        let pin = pins[i];
        assert(bound_entry(snapshot, pin.identity, alias(i)) is Err);
    }
}

/// The tables of an ensure-indices run are looked at one by one, each by its own effect and
/// its own reading, over what the manifest has of it; something speaks against the run where
/// something speaks against one of them, and it left a branch where it forked one that is
/// there.
pub proof fn lemma_indexed_tables_one_by_one(
    snapshot: SnapshotModel,
    pins: Seq<SidecarTablePinModel>,
    payload: RecoveryProtocolV8Model,
    readings: Seq<IndexReading>,
)
    ensures
        ({
            let states = index_states(snapshot, pins, payload, readings);
            let effect = |i: int|
                find_by_identity::<RecoveryEnsureIndicesEffect>(
                    payload.effects,
                    pins[i].identity,
                )->0;
            let entry = |i: int| bound_entry(snapshot, pins[i].identity, pins[i].table_key);
            &&& first_defect(index_hazards(snapshot, pins, payload, readings)) is None <==> (forall|
                i: int,
            |
                0 <= i < pins.len() ==> index_hazard(
                    #[trigger] pins[i],
                    effect(i),
                    selected(entry(i)->Ok_0),
                    readings[i],
                ) is None)
            &&& any_forked_ref(pins, payload, readings) <==> (exists|i: int|
                0 <= i < pins.len() && find_by_identity::<RecoveryEnsureIndicesEffect>(
                    payload.effects,
                    (#[trigger] pins[i]).identity,
                )->0.source_fork_version is Some && readings[i].target is Some)
            &&& states.len() == pins.len()
            &&& forall|i: int|
                0 <= i < pins.len() ==> #[trigger] states[i] == index_state(
                    payload,
                    pins[i],
                    effect(i),
                    entry(i)->Ok_0,
                    readings[i],
                )
        }),
{
    let hazards = index_hazards(snapshot, pins, payload, readings);
    lemma_reported_is_the_first(hazards);
    let effect = |i: int|
        find_by_identity::<RecoveryEnsureIndicesEffect>(payload.effects, pins[i].identity)->0;
    let entry = |i: int| bound_entry(snapshot, pins[i].identity, pins[i].table_key);
    assert forall|i: int| 0 <= i < pins.len() implies #[trigger] hazards[i] == index_hazard(
        pins[i],
        effect(i),
        selected(entry(i)->Ok_0),
        readings[i],
    ) by {}
    if first_defect(hazards) is None {
        assert forall|i: int| 0 <= i < pins.len() implies index_hazard(
            #[trigger] pins[i],
            effect(i),
            selected(entry(i)->Ok_0),
            readings[i],
        ) is None by {
            assert(hazards[i] is None);
        }
    } else {
        let i = choose|i: int|
            {
                &&& 0 <= i < hazards.len()
                &&& #[trigger] hazards[i] == first_defect(hazards)
                &&& forall|j: int| 0 <= j < i ==> (#[trigger] hazards[j]) is None
            };
        let pin = pins[i];
        assert(index_hazard(pin, effect(i), selected(entry(i)->Ok_0), readings[i]) is Some);
    }
    if any_forked_ref(pins, payload, readings) {
        let i = choose|i: int|
            0 <= i < pins.len() && crate::process::indices::forked_ref_present(
                payload,
                #[trigger] pins[i],
                readings[i],
            );
        assert(effect(i).source_fork_version is Some && readings[i].target is Some);
    }
}

/// A table is asked about as it is going to be classified: over the version that the
/// manifest selects, and a missing branch is accepted only where the attempt forks it and
/// builds indices or is armed.
pub proof fn lemma_what_a_table_is_asked(
    sidecar: RecoverySidecarModel,
    pin: SidecarTablePinModel,
    entry: Option<SnapshotEntryModel>,
    probe: TableProbe,
    reading: Option<HeadReading>,
)
    requires
        probe_matches(sidecar, pin, entry, probe),
    ensures
        ({
            let state = state_of(sidecar, pin, entry, reading);
            let effects = (sidecar.protocol_v3->0).effects;
            let effect = find_by_identity::<RecoveryTableEffect>(effects, pin.identity);
            &&& probe.manifest_pinned == selected(entry)
            &&& probe.unpublished_fork == state.unpublished_fork
            &&& probe.allow_missing_target_ref <==> probe.unpublished_fork && (sidecar.writer_kind
                == SidecarKind::EnsureIndices || sidecar.protocol_v3 is Some
                && sidecar.protocol_v3->0.effect_phase == RecoveryEffectPhase::Armed)
            &&& probe.planned_effect is Some <==> sidecar.protocol_v3 is Some && effect is Some
            &&& probe.planned_effect is Some ==> {
                &&& probe.planned_effect->0.first_possible_version == pin.post_commit_pin
                &&& probe.planned_effect->0.uuid@ == effect->0.planned_transaction.uuid
                &&& probe.planned_effect->0.compensation_target == selected(entry)
            }
        }),
{
}

} // verus!
