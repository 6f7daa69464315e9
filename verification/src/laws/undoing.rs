//! What a rollback may undo, and how it is made repeatable.

use vstd::prelude::*;

use crate::classify::{state_of, ClassifiedTable};
use crate::error::OmniErrorModel;
use crate::history::{EffectOwnership, HeadReading};
use crate::laws::steps::classified;
use crate::lookup::{aliases, within};
use crate::process::general::general_step;
use crate::process::step::{ambiguous, drifted, summary, RecoveryStepModel};
use crate::rollback::{
    fixes_rollback, owned, planned_sidecar, prepared_plan, restorations, rollback_outcomes,
    undo_outcomes, undone, with_plan,
};
use crate::shape::branch_merge::{branch_merge_v4_defect, uuids_before};
use crate::shape::defect::{lemma_sound_pins, plan_sound};
use crate::shape::ensure_indices::{ensure_indices_v6_defect, ensure_indices_v8_defect};
use crate::shape::mutation_load::mutation_load_defect;
use crate::shape::validate::{exact, shape_fault};
use crate::sidecar::{
    RecoveryAuthorityTokenModel, RecoveryMode, RecoveryProtocolV4Model, RecoverySidecarModel,
    SidecarTablePin, SidecarTablePinModel, TableOutcome, TableOutcomeModel,
};
use crate::snapshot::{bound_entry, SnapshotModel};
use crate::store::uri_of;

verus! {

/// A rollback plan is fixed once: whatever a later pass observes, after tables
/// were set back already, the plan stays the one that was fixed before.
pub proof fn lemma_plan_is_fixed_once(
    root: Seq<char>,
    sidecar: RecoverySidecarModel,
    states: Seq<ClassifiedTable>,
    later: Seq<ClassifiedTable>,
)
    requires
        planned_sidecar(root, sidecar, states) is Ok,
    ensures
        ({
            let planned = planned_sidecar(root, sidecar, states)->Ok_0;
            &&& prepared_plan(planned) is Some
            &&& planned_sidecar(root, planned, later) == Ok::<RecoverySidecarModel, OmniErrorModel>(
                planned,
            )
        }),
{
}

/// A rollback of a mutation, a load, a branch merge or a loose ensure-indices run
/// is audited as it was planned, whatever a later pass observes.
pub proof fn lemma_audit_follows_the_plan(
    sidecar: RecoverySidecarModel,
    plan: Seq<TableOutcomeModel>,
    done: Seq<TableOutcomeModel>,
)
    requires
        sidecar.protocol_v7 is None,
        sidecar.protocol_v8 is None,
        prepared_plan(sidecar) == Some(plan),
    ensures
        rollback_outcomes(sidecar, done) == plan,
{
}

/// An exact attempt sets back only tables whose effect it owns, and leaves every
/// table alone that did not move: each table that is set back is such a one.
pub proof fn lemma_exact_undoes_its_own(
    sidecar: RecoverySidecarModel,
    states: Seq<ClassifiedTable>,
    n: int,
    k: int,
) -> (i: int)
    requires
        exact(sidecar),
        0 <= n <= states.len(),
        states.len() == sidecar.tables.len(),
        0 <= k < restorations(sidecar, states, n).len(),
    ensures
        0 <= i < n,
        restorations(sidecar, states, n)[k].identity == sidecar.tables[i].identity,
        restorations(sidecar, states, n)[k].target_version == states[i].manifest_pinned,
        owned(states[i].effect_ownership),
        undone(sidecar, states[i]),
    decreases n,
{
    if undone(sidecar, states[n - 1]) && k == restorations(sidecar, states, n - 1).len() {
        n - 1
    } else {
        lemma_exact_undoes_its_own(sidecar, states, n - 1, k)
    }
}

/// A rollback of a mutation or load takes nothing from other writers. No table of it
/// moved without it, none hides its effect under another commit, and each table that
/// is set back carries its effect at the head, above the version that the manifest
/// selects now, which is the one it is set back to: a version that another writer
/// published meanwhile stays.
pub proof fn lemma_rollback_spares_other_writers(
    root: Seq<char>,
    snapshot: SnapshotModel,
    sidecar: RecoverySidecarModel,
    readings: Seq<Option<HeadReading>>,
    live: Option<RecoveryAuthorityTokenModel>,
    schema_promoted: bool,
    live_schema: Option<Seq<char>>,
    mode: RecoveryMode,
    k: int,
) -> (i: int)
    requires
        sidecar.protocol_v3 is Some,
        ({
            let states = classified(snapshot, sidecar, readings);
            &&& general_step(
                root,
                sidecar,
                states,
                live,
                schema_promoted,
                live_schema,
                mode,
            ) == RecoveryStepModel::RollBack
            &&& 0 <= k < restorations(sidecar, states, states.len() as int).len()
        }),
    ensures
        ({
            let states = classified(snapshot, sidecar, readings);
            let restored = restorations(sidecar, states, states.len() as int)[k];
            &&& forall|j: int|
                0 <= j < states.len() ==> !drifted(#[trigger] states[j]) && (
                states[j].effect_ownership == EffectOwnership::Absent || owned(
                    states[j].effect_ownership,
                ))
            &&& 0 <= i < states.len()
            &&& restored.identity == sidecar.tables[i].identity
            &&& owned(states[i].effect_ownership)
            &&& restored.target_version == states[i].manifest_pinned
            &&& sidecar.tables[i].expected_version <= states[i].manifest_pinned
                < states[i].lance_head
        }),
{
    let states = classified(snapshot, sidecar, readings);
    let facts = summary(sidecar.tables, states);
    assert(!facts.unverifiable && !facts.own_effect_buried && !facts.drift
        && !facts.ambiguous_advance);
    assert forall|j: int| 0 <= j < states.len() implies !drifted(#[trigger] states[j]) && (
    states[j].effect_ownership == EffectOwnership::Absent || owned(
        states[j].effect_ownership,
    )) by {}
    let i = lemma_exact_undoes_its_own(sidecar, states, states.len() as int, k);
    assert(states[i].classification == state_of(
        sidecar,
        sidecar.tables[i],
        bound_entry(
            snapshot,
            sidecar.tables[i].identity,
            sidecar.tables[i].table_key,
        )->Ok_0,
        readings[i],
    ).classification);
    assert(!ambiguous(sidecar.tables[i], states[i]));
    i
}

/// Each outcome of a plan belongs to a table before place `n`, and no two to the
/// same.
proof fn lemma_outcomes_name_pins(
    sidecar: RecoverySidecarModel,
    states: Seq<ClassifiedTable>,
    n: int,
)
    requires
        sidecar.protocol_v7 is None,
        0 <= n <= sidecar.tables.len(),
        aliases::<SidecarTablePin>(sidecar.tables).no_duplicates(),
    ensures
        ({
            let named = aliases::<TableOutcome>(undo_outcomes(sidecar, states, n));
            &&& named.no_duplicates()
            &&& within(named, aliases::<SidecarTablePin>(sidecar.tables).subrange(0, n))
        }),
    decreases n,
{
    let pins = aliases::<SidecarTablePin>(sidecar.tables);
    let named = aliases::<TableOutcome>(undo_outcomes(sidecar, states, n));
    if n > 0 {
        lemma_outcomes_name_pins(sidecar, states, n - 1);
        let before = aliases::<TableOutcome>(undo_outcomes(sidecar, states, n - 1));
        let front = pins.subrange(0, n - 1);
        assert forall|i: int| 0 <= i < before.len() implies pins.subrange(0, n).contains(
            #[trigger] before[i],
        ) && before[i] != pins[n - 1] by {
            assert(front.contains(before[i]));
            let j = choose|j: int| 0 <= j < front.len() && front[j] == before[i];
            assert(pins.subrange(0, n)[j] == before[i]);
            assert(pins[j] == before[i]);
        }
        if undone(sidecar, states[n - 1]) {
            assert(named =~= before.push(pins[n - 1]));
            assert(pins.subrange(0, n)[n - 1] == pins[n - 1]);
        } else {
            assert(named =~= before);
        }
    }
}

/// The ids of planned transactions do not depend on the rollback plan.
proof fn lemma_uuids_ignore_plan(
    left: RecoveryProtocolV4Model,
    right: RecoveryProtocolV4Model,
    pins: Seq<SidecarTablePinModel>,
    i: int,
)
    requires
        left.effects == right.effects,
    ensures
        uuids_before(left, pins, i) == uuids_before(right, pins, i),
    decreases i,
{
    if i > 0 {
        lemma_uuids_ignore_plan(left, right, pins, i - 1);
    }
}

/// A rollback plan names tables of the sidecar, each once, and can always be
/// fixed. This holds of every writer that renames no table: a schema apply may
/// restore two tables to one alias, and is refused there.
pub proof fn lemma_plan_is_a_unique_subset_of_pins(
    root: Seq<char>,
    sidecar: RecoverySidecarModel,
    states: Seq<ClassifiedTable>,
)
    requires
        shape_fault(uri_of(root, sidecar.operation_id), sidecar) is None,
        fixes_rollback(sidecar),
        sidecar.protocol_v7 is None,
        states.len() == sidecar.tables.len(),
    ensures
        ({
            let planned = planned_sidecar(root, sidecar, states);
            &&& planned is Ok
            &&& plan_sound(prepared_plan(planned->Ok_0), sidecar.tables)
        }),
{
    let uri = uri_of(root, sidecar.operation_id);
    let pins = sidecar.tables;
    let plan = undo_outcomes(sidecar, states, states.len() as int);
    let planned = with_plan(sidecar, plan);
    if sidecar.protocol_v3 is Some {
        lemma_sound_pins(pins, false);
    } else if sidecar.protocol_v4 is Some || sidecar.protocol_v8 is Some {
        lemma_sound_pins(pins, true);
    }
    lemma_outcomes_name_pins(sidecar, states, states.len() as int);
    let named = aliases::<SidecarTablePin>(pins);
    assert(named.subrange(0, named.len() as int) =~= named);
    assert(plan_sound(Some(plan), pins));
    if sidecar.protocol_v3 is Some {
        let (a, b) = (sidecar.protocol_v3->0, planned.protocol_v3->0);
        assert(crate::shape::mutation_load::table_findings(b, pins)
            =~= crate::shape::mutation_load::table_findings(a, pins));
        assert(mutation_load_defect(planned) is None);
    } else if sidecar.protocol_v4 is Some {
        let (a, b) = (sidecar.protocol_v4->0, planned.protocol_v4->0);
        assert forall|i: int| 0 <= i < pins.len() implies uuids_before(a, pins, i) == uuids_before(
            b,
            pins,
            i,
        ) by {
            lemma_uuids_ignore_plan(a, b, pins, i);
        }
        assert(crate::shape::branch_merge::table_findings(b, pins)
            =~= crate::shape::branch_merge::table_findings(a, pins));
        assert(branch_merge_v4_defect(planned) is None);
    } else if sidecar.protocol_v8 is Some {
        let (a, b) = (sidecar.protocol_v8->0, planned.protocol_v8->0);
        assert(crate::shape::ensure_indices::table_findings(sidecar.branch, b, pins)
            =~= crate::shape::ensure_indices::table_findings(sidecar.branch, a, pins));
        assert(ensure_indices_v8_defect(planned) is None);
    } else {
        assert(ensure_indices_v6_defect(planned) is None);
    }
}

} // verus!
