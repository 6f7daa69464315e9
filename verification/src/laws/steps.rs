//! What recovery may do, and when.

use vstd::prelude::*;

use crate::classify::{
    class_of, classes, decision, mode_of, state_of, ClassificationMode, ClassifiedTable,
    SidecarDecision, TableClassification,
};
use crate::history::HeadReading;
use crate::lookup::find_by_identity;
use crate::process::general::general_step;
use crate::process::indices::index_step;
use crate::process::merge::{merge_step, observes, MergeObservation, MergedTableModel};
use crate::process::schema::schema_step;
use crate::process::step::{summary, RecoveryStepModel, Summary};
use crate::shape::validate::shape_fault;
use crate::snapshot::{bound_entry, SnapshotModel};
use crate::sidecar::{
    RecoveryAuthorityTokenModel, RecoveryEffectPhase, RecoveryMode, RecoveryProtocolV3Model,
    RecoveryProtocolV4Model, RecoveryProtocolV7Model, RecoveryProtocolV8Model, RecoverySidecarModel,
    RecoveryTableEffect, SidecarKind, SidecarTablePinModel, StagedTransactionIdentityModel,
};

verus! {

/// The tables of a sidecar are published together or not at all: one that did not
/// reach its goal keeps all of them from rolling forward, and one with a broken
/// invariant keeps all of them from being touched.
pub proof fn lemma_all_or_nothing(tables: Seq<TableClassification>, i: int)
    requires
        0 <= i < tables.len(),
    ensures
        decision(tables) == SidecarDecision::RollForward ==> tables[i]
            == TableClassification::RolledPastExpected,
        tables[i] is InvariantViolation ==> decision(tables) == SidecarDecision::Abort,
{
}

/// The decision does not depend on the order of the tables.
pub proof fn lemma_decision_ignores_order(
    left: Seq<TableClassification>,
    right: Seq<TableClassification>,
)
    requires
        left.to_multiset() == right.to_multiset(),
    ensures
        decision(left) == decision(right),
{
    lemma_members(left, right);
    lemma_members(right, left);
    if decision(left) != decision(right) {
        lemma_decided_by_members(left, right);
        lemma_decided_by_members(right, left);
    }
}

/// Tables whose classes all occur among others decide nothing that those do not.
proof fn lemma_decided_by_members(
    left: Seq<TableClassification>,
    right: Seq<TableClassification>,
)
    requires
        forall|i: int| 0 <= i < left.len() ==> right.contains(#[trigger] left[i]),
    ensures
        decision(left) == SidecarDecision::Abort ==> decision(right) == SidecarDecision::Abort,
        decision(right) == SidecarDecision::RollForward ==> decision(left)
            == SidecarDecision::RollForward,
{
    assert forall|i: int| 0 <= i < left.len() implies exists|j: int|
        #![trigger right[j]]
        0 <= j < right.len() && right[j] == #[trigger] left[i] by {
        assert(right.contains(left[i]));
    }
}

/// Every element of one sequence is an element of another with the same elements.
proof fn lemma_members(left: Seq<TableClassification>, right: Seq<TableClassification>)
    requires
        left.to_multiset() == right.to_multiset(),
    ensures
        forall|i: int| 0 <= i < left.len() ==> right.contains(#[trigger] left[i]),
{
    broadcast use vstd::seq_lib::group_to_multiset_ensures;

    assert forall|i: int| 0 <= i < left.len() implies right.contains(#[trigger] left[i]) by {
        assert(left.contains(left[i]));
        assert(left.to_multiset().count(left[i]) > 0);
    }
}

/// Under every semantics a table that did not move is recognized as such, and one
/// that is behind the manifest breaks an invariant.
pub proof fn lemma_unmoved(
    pin: SidecarTablePinModel,
    head: u64,
    observed: Option<StagedTransactionIdentityModel>,
    manifest_pinned: u64,
    mode: ClassificationMode,
    protocol: Option<RecoveryProtocolV3Model>,
)
    ensures
        ({
            let class = class_of(pin, head, observed, manifest_pinned, mode, protocol);
            &&& class == TableClassification::NoMovement <==> head == manifest_pinned
            &&& class is InvariantViolation <==> head < manifest_pinned
            &&& class == TableClassification::RolledPastExpected ==> head > manifest_pinned
                && pin.expected_version == manifest_pinned
        }),
{
}

/// Whether a table moved by one version or by more tells the two unexpected classes
/// apart, but for confirmed semantics: there a head other than the confirmed version
/// is a foreign advance, however far it is.
pub proof fn lemma_unexpected_by_distance(
    pin: SidecarTablePinModel,
    head: u64,
    observed: Option<StagedTransactionIdentityModel>,
    manifest_pinned: u64,
    mode: ClassificationMode,
    protocol: Option<RecoveryProtocolV3Model>,
)
    ensures
        ({
            let class = class_of(pin, head, observed, manifest_pinned, mode, protocol);
            &&& class == TableClassification::UnexpectedAtP1 ==> head == manifest_pinned + 1
            &&& class == TableClassification::UnexpectedMultistep && mode
                != ClassificationMode::Confirmed ==> head > manifest_pinned + 1
        }),
{
}

/// A table whose writer never confirmed it does not reach its goal where exact or
/// confirmed semantics hold, wherever its head stands.
pub proof fn lemma_unconfirmed_never_reached(
    pin: SidecarTablePinModel,
    head: u64,
    observed: Option<StagedTransactionIdentityModel>,
    manifest_pinned: u64,
    mode: ClassificationMode,
    protocol: Option<RecoveryProtocolV3Model>,
)
    requires
        mode == ClassificationMode::Confirmed ==> pin.confirmed_version is None,
        mode == ClassificationMode::ExactEffect ==> (protocol matches Some(payload)
            ==> payload.effect_phase == RecoveryEffectPhase::Armed),
        mode == ClassificationMode::Confirmed || mode == ClassificationMode::ExactEffect,
    ensures
        class_of(pin, head, observed, manifest_pinned, mode, protocol)
            != TableClassification::RolledPastExpected,
{
}

/// Where exact semantics hold, a table reaches its goal only by the very
/// transaction that was planned for it: another writer's commit at the same
/// version never passes for it.
pub proof fn lemma_only_the_planned_transaction(
    pin: SidecarTablePinModel,
    head: u64,
    observed: Option<StagedTransactionIdentityModel>,
    manifest_pinned: u64,
    payload: RecoveryProtocolV3Model,
)
    requires
        class_of(
            pin,
            head,
            observed,
            manifest_pinned,
            ClassificationMode::ExactEffect,
            Some(payload),
        ) == TableClassification::RolledPastExpected,
    ensures
        ({
            let effect = find_by_identity::<RecoveryTableEffect>(payload.effects, pin.identity);
            effect is Some && observed == Some(effect->0.planned_transaction)
        }),
        pin.confirmed_version == Some(head),
{
}

/// While the graph is served nothing is ever undone: no recovery restores a table
/// or removes a branch.
pub proof fn lemma_serving_undoes_nothing(
    root: Seq<char>,
    sidecar: RecoverySidecarModel,
    states: Seq<ClassifiedTable>,
    live: Option<RecoveryAuthorityTokenModel>,
    schema_promoted: bool,
    live_schema: Option<Seq<char>>,
    facts: Summary,
    observation: MergeObservation,
    hazard: Option<Seq<char>>,
    mismatch: Option<Seq<char>>,
    forked_ref: bool,
    v4: RecoveryProtocolV4Model,
    v7: RecoveryProtocolV7Model,
    v8: RecoveryProtocolV8Model,
)
    ensures
        !general_step(
            root,
            sidecar,
            states,
            live,
            schema_promoted,
            live_schema,
            RecoveryMode::RollForwardOnly,
        ).destructive(),
        !schema_step(sidecar, v7, facts, live, RecoveryMode::RollForwardOnly).destructive(),
        !index_step(
            sidecar,
            v8,
            facts,
            hazard,
            forked_ref,
            live,
            RecoveryMode::RollForwardOnly,
        ).destructive(),
        !merge_step(
            sidecar,
            v4,
            hazard,
            mismatch,
            observation.physical,
            observation.moved,
            observation.complete,
            live,
            RecoveryMode::RollForwardOnly,
        ).destructive(),
{
}

/// When the graph is opened for writing, recovery leaves no sidecar for later
/// without saying why.
pub proof fn lemma_opening_defers_nothing(
    root: Seq<char>,
    sidecar: RecoverySidecarModel,
    states: Seq<ClassifiedTable>,
    live: Option<RecoveryAuthorityTokenModel>,
    schema_promoted: bool,
    live_schema: Option<Seq<char>>,
    facts: Summary,
    observation: MergeObservation,
    hazard: Option<Seq<char>>,
    mismatch: Option<Seq<char>>,
    forked_ref: bool,
    v4: RecoveryProtocolV4Model,
    v7: RecoveryProtocolV7Model,
    v8: RecoveryProtocolV8Model,
)
    ensures
        general_step(
            root,
            sidecar,
            states,
            live,
            schema_promoted,
            live_schema,
            RecoveryMode::Full,
        ) != RecoveryStepModel::Defer,
        schema_step(sidecar, v7, facts, live, RecoveryMode::Full) != RecoveryStepModel::Defer,
        index_step(sidecar, v8, facts, hazard, forked_ref, live, RecoveryMode::Full)
            != RecoveryStepModel::Defer,
        merge_step(
            sidecar,
            v4,
            hazard,
            mismatch,
            observation.physical,
            observation.moved,
            observation.complete,
            live,
            RecoveryMode::Full,
        ) != RecoveryStepModel::Defer,
{
}

/// What the tables of a sidecar are classified as, from what was read at their
/// heads.
pub open spec fn classified(
    snapshot: SnapshotModel,
    sidecar: RecoverySidecarModel,
    readings: Seq<Option<HeadReading>>,
) -> Seq<ClassifiedTable> {
    Seq::new(
        sidecar.tables.len(),
        |i: int|
            state_of(
                sidecar,
                sidecar.tables[i],
                bound_entry(
                    snapshot,
                    sidecar.tables[i].identity,
                    sidecar.tables[i].table_key,
                )->Ok_0,
                readings[i],
            ),
    )
}

/// An attempt that is armed and not confirmed never rolls forward, in either mode,
/// whatever its tables show: a mutation or load,
pub proof fn lemma_armed_mutation_never_rolls_forward(
    root: Seq<char>,
    uri: Seq<char>,
    snapshot: SnapshotModel,
    sidecar: RecoverySidecarModel,
    readings: Seq<Option<HeadReading>>,
    live: Option<RecoveryAuthorityTokenModel>,
    schema_promoted: bool,
    live_schema: Option<Seq<char>>,
    mode: RecoveryMode,
)
    requires
        shape_fault(uri, sidecar) is None,
        sidecar.protocol_v3 matches Some(payload) && payload.effect_phase
            == RecoveryEffectPhase::Armed,
    ensures
        general_step(
            root,
            sidecar,
            classified(snapshot, sidecar, readings),
            live,
            schema_promoted,
            live_schema,
            mode,
        ) != RecoveryStepModel::RollForward,
{
    let states = classified(snapshot, sidecar, readings);
    let all = classes(states);
    if sidecar.tables.len() > 0 {
        assert(all[0] == states[0].classification);
        assert(all[0] != TableClassification::RolledPastExpected);
        lemma_all_or_nothing(all, 0);
    } else {
        assert(!summary(sidecar.tables, states).own_effect);
    }
}

/// a schema apply,
pub proof fn lemma_armed_schema_apply_never_rolls_forward(
    sidecar: RecoverySidecarModel,
    payload: RecoveryProtocolV7Model,
    facts: Summary,
    live: Option<RecoveryAuthorityTokenModel>,
    mode: RecoveryMode,
)
    requires
        payload.effect_phase == RecoveryEffectPhase::Armed,
    ensures
        schema_step(sidecar, payload, facts, live, mode) != RecoveryStepModel::RollForward,
{
}

/// an ensure-indices run,
pub proof fn lemma_armed_ensure_indices_never_rolls_forward(
    sidecar: RecoverySidecarModel,
    payload: RecoveryProtocolV8Model,
    facts: Summary,
    hazard: Option<Seq<char>>,
    forked_ref: bool,
    live: Option<RecoveryAuthorityTokenModel>,
    mode: RecoveryMode,
)
    requires
        payload.effect_phase == RecoveryEffectPhase::Armed,
    ensures
        index_step(sidecar, payload, facts, hazard, forked_ref, live, mode)
            != RecoveryStepModel::RollForward,
{
}

/// and a branch merge.
pub proof fn lemma_armed_merge_never_rolls_forward(
    sidecar: RecoverySidecarModel,
    payload: RecoveryProtocolV4Model,
    observation: MergeObservation,
    tables: Seq<Result<MergedTableModel, crate::error::OmniErrorModel>>,
    hazard: Option<Seq<char>>,
    mismatch: Option<Seq<char>>,
    live: Option<RecoveryAuthorityTokenModel>,
    mode: RecoveryMode,
)
    requires
        payload.effect_phase == RecoveryEffectPhase::Armed,
        observes(observation, payload, tables),
    ensures
        merge_step(
            sidecar,
            payload,
            hazard,
            mismatch,
            observation.physical,
            observation.moved,
            observation.complete,
            live,
            mode,
        ) != RecoveryStepModel::RollForward,
{
}

/// Whether a step leaves everything as it is: what the attempt did, what the branch
/// shows, and the sidecar.
pub open spec fn leaves_alone(step: RecoveryStepModel) -> bool {
    step is Defer || step is Refuse || step is ReadLiveAuthority || step is ReadLiveSchema
}

/// An exact recovery never acts on a branch that was deleted and recreated under
/// the same name, once the attempt left anything behind: for a mutation or load,
pub proof fn lemma_recreated_branch_is_left_alone(
    root: Seq<char>,
    sidecar: RecoverySidecarModel,
    states: Seq<ClassifiedTable>,
    live: RecoveryAuthorityTokenModel,
    schema_promoted: bool,
    live_schema: Option<Seq<char>>,
    mode: RecoveryMode,
)
    requires
        sidecar.protocol_v3 matches Some(payload) && payload.authority.branch_identifier
            != live.branch_identifier,
        summary(sidecar.tables, states).own_effect,
    ensures
        leaves_alone(
            general_step(
                root,
                sidecar,
                states,
                Some(live),
                schema_promoted,
                live_schema,
                mode,
            ),
        ),
{
}

/// for an ensure-indices run,
pub proof fn lemma_recreated_index_branch_is_left_alone(
    sidecar: RecoverySidecarModel,
    payload: RecoveryProtocolV8Model,
    facts: Summary,
    hazard: Option<Seq<char>>,
    forked_ref: bool,
    live: RecoveryAuthorityTokenModel,
    mode: RecoveryMode,
)
    requires
        payload.authority.branch_identifier != live.branch_identifier,
        facts.own_effect || forked_ref,
    ensures
        leaves_alone(
            index_step(sidecar, payload, facts, hazard, forked_ref, Some(live), mode),
        ),
{
}

/// and for a branch merge.
pub proof fn lemma_recreated_merge_branch_is_left_alone(
    sidecar: RecoverySidecarModel,
    payload: RecoveryProtocolV4Model,
    hazard: Option<Seq<char>>,
    mismatch: Option<Seq<char>>,
    moved: bool,
    complete: bool,
    live: RecoveryAuthorityTokenModel,
    mode: RecoveryMode,
)
    requires
        payload.authority.branch_identifier != live.branch_identifier,
    ensures
        leaves_alone(
            merge_step(
                sidecar,
                payload,
                hazard,
                mismatch,
                true,
                moved,
                complete,
                Some(live),
                mode,
            ),
        ),
{
}

/// An exact attempt rolls forward only onto the authority that it was validated
/// against.
pub proof fn lemma_forward_needs_the_same_authority(
    root: Seq<char>,
    sidecar: RecoverySidecarModel,
    states: Seq<ClassifiedTable>,
    schema_promoted: bool,
    live_schema: Option<Seq<char>>,
    facts: Summary,
    hazard: Option<Seq<char>>,
    mismatch: Option<Seq<char>>,
    forked_ref: bool,
    physical: bool,
    moved: bool,
    complete: bool,
    v4: RecoveryProtocolV4Model,
    v7: RecoveryProtocolV7Model,
    v8: RecoveryProtocolV8Model,
    live: Option<RecoveryAuthorityTokenModel>,
    mode: RecoveryMode,
)
    ensures
        sidecar.protocol_v3 is Some && general_step(
            root,
            sidecar,
            states,
            live,
            schema_promoted,
            live_schema,
            mode,
        ) == RecoveryStepModel::RollForward ==> live == Some((sidecar.protocol_v3->0).authority),
        schema_step(sidecar, v7, facts, live, mode) == RecoveryStepModel::RollForward ==> live
            == Some(v7.authority),
        index_step(sidecar, v8, facts, hazard, forked_ref, live, mode)
            == RecoveryStepModel::RollForward ==> live == Some(v8.authority),
        merge_step(sidecar, v4, hazard, mismatch, physical, moved, complete, live, mode)
            == RecoveryStepModel::RollForward ==> live == Some(v4.authority),
{
}

/// An exact recovery undoes nothing while it does not understand every table: no
/// effect that cannot be told apart, none under another commit, no foreign commit on
/// a table that the manifest owns, and no ambiguous move of the manifest.
pub proof fn lemma_rollback_needs_a_clear_view(
    sidecar: RecoverySidecarModel,
    facts: Summary,
    hazard: Option<Seq<char>>,
    mismatch: Option<Seq<char>>,
    forked_ref: bool,
    physical: bool,
    moved: bool,
    complete: bool,
    v4: RecoveryProtocolV4Model,
    v7: RecoveryProtocolV7Model,
    v8: RecoveryProtocolV8Model,
    live: Option<RecoveryAuthorityTokenModel>,
    mode: RecoveryMode,
)
    ensures
        ({
            let clear = !facts.unverifiable && !facts.own_effect_buried && !facts.owned_table_drift
                && !facts.ambiguous_advance;
            &&& schema_step(sidecar, v7, facts, live, mode).destructive() ==> clear
            &&& index_step(sidecar, v8, facts, hazard, forked_ref, live, mode).destructive()
                ==> clear && hazard is None
            &&& merge_step(
                sidecar,
                v4,
                hazard,
                mismatch,
                physical,
                moved,
                complete,
                live,
                mode,
            ).destructive() ==> hazard is None && mismatch is None
        }),
{
}

/// The newest generation of every writer but maintenance is never classified
/// loosely.
pub proof fn lemma_newest_generation_is_not_loose(kind: SidecarKind)
    ensures
        mode_of(kind, crate::sidecar::IDENTITY_AWARE_SIDECAR_SCHEMA_VERSION)
            == ClassificationMode::Loose ==> kind == SidecarKind::Optimize,
{
}

} // verus!
