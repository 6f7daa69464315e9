//! When recovery takes each of its steps, in terms of what the tables show.

use vstd::prelude::*;

use crate::classify::{classes, decision, ClassifiedTable, SidecarDecision, TableClassification};
use crate::history::EffectOwnership;
use crate::process::general::{process_sidecar, route, RecoveryRoute};
use crate::process::indices::{process_ensure_indices_sidecar_v8, IndexObservation};
use crate::process::merge::{process_branch_merge_sidecar_v4, MergeObservation};
use crate::process::schema::process_schema_apply_sidecar_v7;
use crate::process::step::{ambiguous, drifted, summary, RecoveryStep};
use crate::sidecar::{
    RecoveryAuthorityToken, RecoveryEffectPhase, RecoveryMode, RecoveryProtocolV4,
    RecoveryProtocolV7, RecoveryProtocolV8, RecoverySidecar, RecoverySidecarModel, SidecarKind,
    SidecarTablePinModel,
};
use crate::value::opt_view;

verus! {

/// Whether a table carries a commit of the attempt, at its head or under it.
pub open spec fn carries(state: ClassifiedTable) -> bool {
    match state.effect_ownership {
        EffectOwnership::OwnAtHead => true,
        EffectOwnership::OwnBeforeHead => true,
        EffectOwnership::OwnCompensatedAtHead => true,
        EffectOwnership::Absent => false,
        EffectOwnership::Unverifiable => false,
    }
}

/// Whether some table carries a commit of the attempt.
pub open spec fn left_something(states: Seq<ClassifiedTable>) -> bool {
    exists|i: int| 0 <= i < states.len() && carries(#[trigger] states[i])
}

/// Whether it can be told of every table whether the attempt committed to it.
pub open spec fn readable(states: Seq<ClassifiedTable>) -> bool {
    forall|i: int|
        0 <= i < states.len() ==> !((#[trigger] states[i]).effect_ownership is Unverifiable)
}

/// Whether setting a table back takes nothing but the commit of the attempt: the
/// commit is the head, and the manifest selects what the attempt started from or
/// something that was published under the commit since.
pub open spec fn separable(pin: SidecarTablePinModel, state: ClassifiedTable) -> bool {
    match state.effect_ownership {
        EffectOwnership::OwnAtHead | EffectOwnership::OwnCompensatedAtHead => {
            ||| state.manifest_pinned == pin.expected_version
            ||| pin.expected_version < state.manifest_pinned < state.lance_head
        },
        EffectOwnership::OwnBeforeHead => false,
        EffectOwnership::Unverifiable => false,
        EffectOwnership::Absent => true,
    }
}

/// Whether a table that the attempt did not commit to has not moved either.
pub open spec fn undisturbed(state: ClassifiedTable) -> bool {
    state.effect_ownership is Absent ==> state.lance_head <= state.manifest_pinned
}

/// Whether no table mixes the attempt with what others did. The branch that an
/// attempt forks itself may be ahead of what the manifest inherits where `forks`.
pub open spec fn unmixed(
    pins: Seq<SidecarTablePinModel>,
    states: Seq<ClassifiedTable>,
    forks: bool,
) -> bool {
    forall|i: int|
        0 <= i < states.len() ==> separable(pins[i], #[trigger] states[i]) && (undisturbed(
            states[i],
        ) || (forks && states[i].unpublished_fork))
}

/// Whether every table reached what the attempt announced.
pub open spec fn finished(states: Seq<ClassifiedTable>) -> bool {
    forall|i: int|
        0 <= i < states.len() ==> (#[trigger] states[i]).classification is RolledPastExpected
}

/// Whether every table stands where the manifest does.
pub open spec fn standing(states: Seq<ClassifiedTable>) -> bool {
    forall|i: int|
        0 <= i < states.len() ==> (#[trigger] states[i]).classification is NoMovement
}

/// Whether some table is behind the manifest.
pub open spec fn broken(states: Seq<ClassifiedTable>) -> bool {
    exists|i: int|
        0 <= i < states.len() && (#[trigger] states[i]).classification is InvariantViolation
}

/// Whether the manifest went past what the attempt expected of some table.
pub open spec fn overtaken(
    pins: Seq<SidecarTablePinModel>,
    states: Seq<ClassifiedTable>,
) -> bool {
    exists|i: int|
        0 <= i < states.len() && (#[trigger] states[i]).manifest_pinned
            > pins[i].expected_version
}

/// Whether the manifest still inherits some table that the attempt forks.
pub open spec fn forking(states: Seq<ClassifiedTable>) -> bool {
    exists|i: int| 0 <= i < states.len() && (#[trigger] states[i]).unpublished_fork
}

/// The answers to the questions about the tables, from the tables.
proof fn lemma_facts(pins: Seq<SidecarTablePinModel>, states: Seq<ClassifiedTable>)
    requires
        states.len() == pins.len(),
    ensures
        ({
            let facts = summary(pins, states);
            &&& facts.unverifiable == !readable(states)
            &&& facts.own_effect == left_something(states)
            &&& (facts.unverifiable || facts.own_effect_buried || facts.ambiguous_advance
                || facts.drift) == !unmixed(pins, states, false)
            &&& (facts.unverifiable || facts.own_effect_buried || facts.ambiguous_advance
                || facts.owned_table_drift) == !unmixed(pins, states, true)
            &&& facts.all_reached == finished(states)
            &&& facts.all_no_movement == standing(states)
            &&& facts.advanced == overtaken(pins, states)
            &&& facts.unpublished_fork == forking(states)
        }),
{
    let facts = summary(pins, states);
    if left_something(states) {
        let i = choose|i: int| 0 <= i < states.len() && carries(#[trigger] states[i]);
        assert(facts.own_effect);
    }
    if facts.own_effect {
        let i = choose|i: int|
            0 <= i < states.len() && (#[trigger] states[i]).effect_ownership
                != EffectOwnership::Absent && states[i].effect_ownership
                != EffectOwnership::Unverifiable;
        assert(carries(states[i]));
    }
    assert forall|i: int| 0 <= i < states.len() implies separable(pins[i], #[trigger] states[i])
        == (!ambiguous(pins[i], states[i]) && !(states[i].effect_ownership is OwnBeforeHead)
        && !(states[i].effect_ownership is Unverifiable)) by {}
    if unmixed(pins, states, false) {
        assert(!facts.unverifiable && !facts.own_effect_buried && !facts.ambiguous_advance
            && !facts.drift);
    }
    if unmixed(pins, states, true) {
        assert(!facts.unverifiable && !facts.own_effect_buried && !facts.ambiguous_advance
            && !facts.owned_table_drift);
    }
    if !facts.unverifiable && !facts.own_effect_buried && !facts.ambiguous_advance {
        assert forall|i: int| 0 <= i < states.len() implies separable(
            pins[i],
            #[trigger] states[i],
        ) by {
            assert(!ambiguous(pins[i], states[i]));
        }
        if !facts.drift {
            assert forall|i: int| 0 <= i < states.len() implies undisturbed(
                #[trigger] states[i],
            ) by {
                assert(!drifted(states[i]));
            }
        }
        if !facts.owned_table_drift {
            assert forall|i: int| 0 <= i < states.len() implies undisturbed(#[trigger] states[i])
                || states[i].unpublished_fork by {
                assert(!(drifted(states[i]) && !states[i].unpublished_fork));
            }
        }
    }
}

/// The decision on a set of tables, from their classes.
proof fn lemma_decided(states: Seq<ClassifiedTable>)
    ensures
        decision(classes(states)) == SidecarDecision::Abort <==> broken(states),
        decision(classes(states)) == SidecarDecision::RollForward <==> finished(states)
            && !broken(states),
{
    let list = classes(states);
    assert forall|i: int| 0 <= i < states.len() implies list[i] == (
    #[trigger] states[i]).classification by {}
    if broken(states) {
        let i = choose|i: int|
            0 <= i < states.len() && (#[trigger] states[i]).classification is InvariantViolation;
        assert(list[i] is InvariantViolation);
    }
    if exists|i: int| 0 <= i < list.len() && (#[trigger] list[i]) is InvariantViolation {
        let i = choose|i: int| 0 <= i < list.len() && (#[trigger] list[i]) is InvariantViolation;
        assert(states[i].classification is InvariantViolation);
    }
    if forall|i: int|
        0 <= i < list.len() ==> (#[trigger] list[i]) == TableClassification::RolledPastExpected {
        assert forall|i: int| 0 <= i < states.len() implies (
        #[trigger] states[i]).classification is RolledPastExpected by {
            assert(list[i] == TableClassification::RolledPastExpected);
        }
    }
}

/// Tables are decided on together: they roll forward exactly where every one of them
/// reached its goal, nobody acts exactly where one is behind the manifest, and in
/// every other case what moved is undone.
pub proof fn lemma_decision_is_for_all(tables: Seq<TableClassification>)
    ensures
        decision(tables) == SidecarDecision::RollForward <==> (forall|i: int|
            0 <= i < tables.len() ==> (#[trigger] tables[i]) is RolledPastExpected),
        decision(tables) == SidecarDecision::Abort <==> (exists|i: int|
            0 <= i < tables.len() && (#[trigger] tables[i]) is InvariantViolation),
        decision(tables) == SidecarDecision::RollBack <==> (exists|i: int|
            0 <= i < tables.len() && !((#[trigger] tables[i]) is RolledPastExpected)) && (forall|
            i: int,
        |
            0 <= i < tables.len() ==> !((#[trigger] tables[i]) is InvariantViolation)),
{
}

/// A branch merge is published exactly where nothing speaks against it, every table
/// is as it was confirmed, and the branch still has the authority that the merge was
/// validated against, in either mode. When the graph is opened it is undone by a
/// commit where a head moved, and by removing its forks where none did; a state that
/// nobody may act on is reported. While the graph is served, what is not published is
/// left for later.
pub proof fn lemma_when_a_merge_is_published(
    sidecar: &RecoverySidecar,
    payload: &RecoveryProtocolV4,
    observation: &MergeObservation,
    read: &Option<RecoveryAuthorityToken>,
    mode: RecoveryMode,
    step: RecoveryStep,
)
    requires
        call_ensures(
            process_branch_merge_sidecar_v4,
            (sidecar, payload, observation, read, mode),
            step,
        ),
    ensures
        ({
            let live = opt_view(*read);
            let safe = observation.hazard is None && observation.mismatch is None;
            let moved = observation.moved;
            let physical = observation.physical;
            let recreated = live is Some && live->0.branch_identifier
                != payload@.authority.branch_identifier;
            let opening = mode == RecoveryMode::Full;
            let done = safe && observation.complete && live == Some(payload@.authority);
            let left = safe && live is Some && !(recreated && physical) && !done;
            &&& step is RollForward <==> done
            &&& step is ReadLiveAuthority <==> safe && live is None
            &&& step is RollBack <==> opening && left && moved
            &&& step is DiscardForks <==> opening && left && !moved
            &&& step is Refuse <==> opening && (!safe || recreated && physical)
            &&& step is Defer <==> !opening && !done && (!safe || live is Some)
        }),
{
}

/// A schema apply is published exactly where no table mixes it with what others did,
/// it was confirmed and not given up, the main branch still has the authority that it
/// was validated against, and every table reached its goal, in either mode. When the
/// graph is opened it is undone otherwise, or reported where tables are mixed; while
/// the graph is served it is left for later.
pub proof fn lemma_when_a_schema_apply_is_published(
    sidecar: &RecoverySidecar,
    payload: &RecoveryProtocolV7,
    tables: &Vec<ClassifiedTable>,
    read: &Option<RecoveryAuthorityToken>,
    mode: RecoveryMode,
    step: RecoveryStep,
)
    requires
        tables.len() == sidecar.tables.len(),
        call_ensures(
            process_schema_apply_sidecar_v7,
            (sidecar, payload, tables, read, mode),
            step,
        ),
    ensures
        ({
            let live = opt_view(*read);
            let states = tables@;
            let clear = unmixed(sidecar@.tables, states, true);
            let opening = mode == RecoveryMode::Full;
            let done = clear && live == Some(payload@.authority) && payload.effect_phase
                == RecoveryEffectPhase::EffectsConfirmed && payload.rollback_audit_outcomes is None
                && finished(states);
            &&& step is RollForward <==> done
            &&& step is ReadLiveAuthority <==> clear && live is None
            &&& step is RollBack <==> opening && clear && live is Some && !done
            &&& step is Refuse <==> opening && !clear
            &&& step is Defer <==> !opening && !done && (!clear || live is Some)
        }),
{
    lemma_facts(sidecar@.tables, tables@);
}

/// An ensure-indices run is published exactly where nothing speaks against it, no
/// table mixes it with what others did, it was confirmed and not given up, the branch
/// still has the authority that the run was validated against, and every table
/// reached its goal, in either mode. A run on a branch that was deleted and recreated
/// is dropped where it left nothing, and reported where it left something.
pub proof fn lemma_when_an_index_run_is_published(
    sidecar: &RecoverySidecar,
    payload: &RecoveryProtocolV8,
    observation: &IndexObservation,
    read: &Option<RecoveryAuthorityToken>,
    mode: RecoveryMode,
    step: RecoveryStep,
)
    requires
        observation.states.len() == sidecar.tables.len(),
        call_ensures(
            process_ensure_indices_sidecar_v8,
            (sidecar, payload, observation, read, mode),
            step,
        ),
    ensures
        ({
            let live = opt_view(*read);
            let states = observation.states@;
            let clear = unmixed(sidecar@.tables, states, true) && observation.hazard is None;
            let opening = mode == RecoveryMode::Full;
            let recreated = live is Some && live->0.branch_identifier
                != payload@.authority.branch_identifier;
            let left = left_something(states) || observation.forked_ref;
            let done = clear && live == Some(payload@.authority) && payload.effect_phase
                == RecoveryEffectPhase::EffectsConfirmed && payload.rollback_audit_outcomes is None
                && finished(states);
            &&& step is RollForward <==> done
            &&& step is ReadLiveAuthority <==> clear && live is None
            &&& step is RollBack <==> opening && clear && live is Some && !recreated && !done
            &&& step is DeleteSidecar <==> opening && clear && recreated && !left
            &&& step is Refuse <==> opening && (!clear || recreated && left)
            &&& step is Defer <==> !opening && !done && (!clear || live is Some)
        }),
{
    lemma_facts(sidecar@.tables, observation.states@);
}

/// The sidecar of a mutation or load is deleted while the graph is served only where
/// the attempt was confirmed, left nothing and forks nothing: one that is armed may
/// belong to a writer that is still at work, and is left alone. When the graph is
/// opened, an attempt that left nothing only has its forks removed. One that left
/// something is published exactly where no table mixes it with what others did, the
/// branch still has the authority that it was validated against, and every table
/// reached its goal, in either mode. It is undone where it is unmixed but the
/// authority changed or some table did not get there. Everything else is reported.
pub proof fn lemma_when_a_mutation_is_published(
    root: &str,
    sidecar: &RecoverySidecar,
    tables: &Vec<ClassifiedTable>,
    read: &Option<RecoveryAuthorityToken>,
    schema_promoted: bool,
    schema: &Option<String>,
    mode: RecoveryMode,
    step: RecoveryStep,
)
    requires
        tables.len() == sidecar.tables.len(),
        call_ensures(
            process_sidecar,
            (root, sidecar, tables, read, schema_promoted, schema, mode),
            step,
        ),
        sidecar.writer_kind == SidecarKind::Mutation || sidecar.writer_kind == SidecarKind::Load,
        sidecar.protocol_v3 is Some,
    ensures
        ({
            let live = opt_view(*read);
            let live_schema = opt_view(*schema);
            let states = tables@;
            let payload = sidecar@.protocol_v3->0;
            let opening = mode == RecoveryMode::Full;
            let idle = live is Some && readable(states) && !left_something(states);
            let clear = live is Some && left_something(states) && unmixed(
                sidecar@.tables,
                states,
                false,
            ) && live->0.branch_identifier == payload.authority.branch_identifier;
            let same = live == Some(payload.authority);
            let aligned = standing(states) && overtaken(sidecar@.tables, states);
            let done = clear && same && finished(states);
            &&& step is ReadLiveAuthority <==> live is None
            &&& step is RollForward <==> done
            &&& step is DiscardForks <==> opening && idle
            &&& step is DeleteSidecar <==> !opening && idle && payload.effect_phase
                == RecoveryEffectPhase::EffectsConfirmed && !forking(states)
            &&& step is RollBack <==> opening && clear && (!same || (!finished(states) && !broken(
                states,
            ) && !aligned))
            &&& step is Refuse <==> opening && live is Some && !idle && (!clear || (same && (broken(
                states,
            ) || aligned)))
            &&& step is Defer <==> !opening && live is Some && !done && !(step is DeleteSidecar)
            &&& !(step is ReadLiveSchema) && !(step is RecordRolledForward)
        }),
{
    let states = tables@;
    lemma_facts(sidecar@.tables, states);
    lemma_decided(states);
    if left_something(states) && finished(states) {
        let i = choose|i: int| 0 <= i < states.len() && carries(#[trigger] states[i]);
        if broken(states) {
            let j = choose|j: int|
                0 <= j < states.len() && (#[trigger] states[j]).classification
                    is InvariantViolation;
            assert(states[j].classification is RolledPastExpected);
        }
        if standing(states) {
            assert(states[i].classification is NoMovement);
        }
    }
}

/// An attempt that no payload describes exactly is recovered by its classes alone: it
/// is published where every table reached its goal, and recorded as published where
/// every table stands where the manifest does and the manifest moved on. When the
/// graph is opened, what moved is undone, and an ensure-indices run that moved
/// nothing has its forks removed.
pub proof fn lemma_when_a_loose_attempt_is_published(
    root: &str,
    sidecar: &RecoverySidecar,
    tables: &Vec<ClassifiedTable>,
    read: &Option<RecoveryAuthorityToken>,
    schema_promoted: bool,
    schema: &Option<String>,
    mode: RecoveryMode,
    step: RecoveryStep,
)
    requires
        tables.len() == sidecar.tables.len(),
        call_ensures(
            process_sidecar,
            (root, sidecar, tables, read, schema_promoted, schema, mode),
            step,
        ),
        sidecar.protocol_v3 is None,
        sidecar.writer_kind != SidecarKind::SchemaApply,
    ensures
        ({
            let live = opt_view(*read);
            let live_schema = opt_view(*schema);
            let states = tables@;
            let opening = mode == RecoveryMode::Full;
            let whole = !broken(states);
            let done = whole && finished(states);
            let recorded = whole && !done && standing(states) && overtaken(
                sidecar@.tables,
                states,
            );
            let idle = whole && !done && !recorded && standing(states) && sidecar.writer_kind
                == SidecarKind::EnsureIndices;
            &&& step is RollForward <==> done
            &&& step is RecordRolledForward <==> recorded
            &&& step is DiscardForks <==> opening && idle
            &&& step is RollBack <==> opening && whole && !done && !recorded && !idle
            &&& step is Refuse <==> opening && !whole
            &&& step is Defer <==> !opening && !done && !recorded
        }),
{
    let states = tables@;
    lemma_facts(sidecar@.tables, states);
    lemma_decided(states);
}

/// A schema apply without an exact payload is published where every table reached its
/// goal and its schema was promoted, by this pass or, for one that names its target,
/// by an earlier one. Where the manifest shows it already it is recorded as published
/// once its schema is live. A confirmed publish without its schema is reported.
pub proof fn lemma_when_a_loose_schema_apply_is_published(
    root: &str,
    sidecar: &RecoverySidecar,
    tables: &Vec<ClassifiedTable>,
    read: &Option<RecoveryAuthorityToken>,
    schema_promoted: bool,
    schema: &Option<String>,
    mode: RecoveryMode,
    step: RecoveryStep,
)
    requires
        tables.len() == sidecar.tables.len(),
        call_ensures(
            process_sidecar,
            (root, sidecar, tables, read, schema_promoted, schema, mode),
            step,
        ),
        sidecar.protocol_v3 is None,
        sidecar.writer_kind == SidecarKind::SchemaApply,
    ensures
        ({
            let live = opt_view(*read);
            let live_schema = opt_view(*schema);
            let states = tables@;
            let opening = mode == RecoveryMode::Full;
            let whole = !broken(states);
            let reached = whole && finished(states);
            let aligned = whole && !reached && standing(states) && overtaken(
                sidecar@.tables,
                states,
            );
            let names_target = sidecar.schema_version == 5;
            let asks = names_target && (aligned || reached && !schema_promoted);
            let target = sidecar@.schema_apply_target_schema_ir_hash;
            let told = asks && live_schema is Some && target is Some;
            let active = told && live_schema == target;
            let shown = sidecar.schema_apply_manifest_published;
            &&& step is RollForward <==> reached && (schema_promoted || active && !shown)
            &&& step is RecordRolledForward <==> aligned && (!names_target || active) || reached
                && !schema_promoted && active && shown
            &&& step is ReadLiveSchema <==> asks && live_schema is None
            &&& step is RollBack <==> opening && whole && (if asks {
                told && !active && !shown
            } else {
                !aligned && !(reached && schema_promoted)
            })
            &&& step is Refuse <==> opening && !whole || asks && live_schema is Some && target
                is None || opening && told && !active && shown
            &&& step is Defer <==> !opening && (!whole || (if asks {
                told && !active
            } else {
                !aligned && !(reached && schema_promoted)
            }))
        }),
{
    let states = tables@;
    lemma_facts(sidecar@.tables, states);
    lemma_decided(states);
}

/// Every sidecar is recovered by the rules of its writer: in the newest generation by
/// the kind of the writer, in an earlier one by the payload that it carries.
pub proof fn lemma_each_writer_has_its_recovery(sidecar: RecoverySidecarModel)
    ensures
        sidecar.schema_version == 9 ==> {
            &&& route(sidecar) == RecoveryRoute::EnsureIndices <==> sidecar.writer_kind
                == SidecarKind::EnsureIndices
            &&& route(sidecar) == RecoveryRoute::SchemaApply <==> sidecar.writer_kind
                == SidecarKind::SchemaApply
            &&& route(sidecar) == RecoveryRoute::BranchMerge <==> sidecar.writer_kind
                == SidecarKind::BranchMerge
        },
        sidecar.schema_version != 9 ==> {
            &&& route(sidecar) == RecoveryRoute::EnsureIndices <==> sidecar.protocol_v8 is Some
            &&& route(sidecar) == RecoveryRoute::SchemaApply <==> sidecar.protocol_v8 is None
                && sidecar.protocol_v7 is Some
            &&& route(sidecar) == RecoveryRoute::BranchMerge <==> sidecar.protocol_v8 is None
                && sidecar.protocol_v7 is None && sidecar.protocol_v4 is Some
        },
{
}

} // verus!
