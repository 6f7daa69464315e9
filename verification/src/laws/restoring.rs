//! What a rollback sets back, plans and publishes, table by table.

use vstd::prelude::*;

use crate::classify::ClassifiedTable;
use crate::identity::{path_of, TableIdentity};
use crate::lookup::find_by_identity;
use crate::process::indices::index_restorations;
use crate::process::schema::schema_restorations;
use crate::publish::{ManifestChangeModel, PublishedTableModel, SubTableUpdateModel};
use crate::rollback::{
    done_outcomes, restorations, restored_changes, undo_outcomes, RestorationModel,
};
use crate::sidecar::{
    RecoveryEnsureIndicesEffect, RecoveryProtocolV7Model, RecoveryProtocolV8Model,
    RecoverySchemaApplyEffect, RecoverySidecarModel, SidecarTablePinModel, SidecarTableRename,
    SidecarTableRenameModel, TableOutcomeModel,
};

verus! {

/// The places before `n` that are kept, in order.
pub open spec fn places(n: int, keep: spec_fn(int) -> bool) -> Seq<int>
    decreases n,
{
    if n <= 0 {
        Seq::empty()
    } else if keep(n - 1) {
        places(n - 1, keep).push(n - 1)
    } else {
        places(n - 1, keep)
    }
}

/// Whether `list` holds every place before `n` that is kept, each once and in order,
/// and nothing else.
pub open spec fn picks(list: Seq<int>, n: int, keep: spec_fn(int) -> bool) -> bool {
    &&& forall|k: int| 0 <= k < list.len() ==> 0 <= #[trigger] list[k] < n && keep(list[k])
    &&& forall|k: int, m: int| 0 <= k < m < list.len() ==> #[trigger] list[k] < #[trigger] list[m]
    &&& forall|i: int| 0 <= i < n && #[trigger] keep(i) ==> list.contains(i)
}

/// The places that are kept are every one that is kept, each once and in order.
pub proof fn lemma_places(n: int, keep: spec_fn(int) -> bool)
    ensures
        picks(places(n, keep), n, keep),
    decreases n,
{
    if n > 0 {
        lemma_places(n - 1, keep);
        let before = places(n - 1, keep);
        let all = places(n, keep);
        assert forall|i: int| 0 <= i < n && #[trigger] keep(i) implies all.contains(i) by {
            if i < n - 1 {
                let k = choose|k: int| 0 <= k < before.len() && before[k] == i;
                assert(all[k] == i);
            } else {
                assert(all[before.len() as int] == i);
            }
        }
    }
}

/// Whether the class of a table says that it moved past the manifest.
pub open spec fn past_manifest(state: ClassifiedTable) -> bool {
    !(state.classification is NoMovement) && !(state.classification is InvariantViolation)
}

/// Whether the commit of the attempt is at the head of a table, or undone there.
pub open spec fn at_head(state: ClassifiedTable) -> bool {
    state.effect_ownership is OwnAtHead || state.effect_ownership is OwnCompensatedAtHead
}

/// Whether a sidecar describes its attempt exactly.
pub open spec fn described(sidecar: RecoverySidecarModel) -> bool {
    ||| sidecar.protocol_v3 is Some
    ||| sidecar.protocol_v4 is Some
    ||| sidecar.protocol_v7 is Some
    ||| sidecar.protocol_v8 is Some
}

/// Whether a rollback takes a table back: it moved, and where the sidecar describes
/// the attempt exactly it is the attempt that moved it.
pub open spec fn taken_back(sidecar: RecoverySidecarModel, state: ClassifiedTable) -> bool {
    past_manifest(state) && (described(sidecar) ==> at_head(state))
}

/// Whether a restoration sets one pinned table, at its own place, back to what the
/// manifest selects, unless an earlier pass did so.
pub open spec fn sets_back(
    restored: RestorationModel,
    pin: SidecarTablePinModel,
    state: ClassifiedTable,
) -> bool {
    &&& restored.identity == pin.identity
    &&& restored.table_path == pin.table_path
    &&& restored.target_version == state.manifest_pinned
    &&& restored.already_restored <==> state.effect_ownership is OwnCompensatedAtHead
}

/// A rollback sets back every table that has to be taken back, each once, in order,
/// and no other: on its branch, under its alias, to the version that the manifest
/// selects.
pub proof fn lemma_every_moved_table_is_set_back(
    sidecar: RecoverySidecarModel,
    states: Seq<ClassifiedTable>,
) -> (tables: Seq<int>)
    requires
        states.len() == sidecar.tables.len(),
    ensures
        picks(tables, states.len() as int, |i: int| taken_back(sidecar, states[i])),
        ({
            let list = restorations(sidecar, states, states.len() as int);
            &&& list.len() == tables.len()
            &&& forall|k: int|
                0 <= k < list.len() ==> {
                    let pin = sidecar.tables[tables[k]];
                    &&& sets_back(#[trigger] list[k], pin, states[tables[k]])
                    &&& list[k].table_key == pin.table_key
                    &&& list[k].table_branch == pin.table_branch
                }
        }),
{
    let keep = |i: int| taken_back(sidecar, states[i]);
    lemma_places(states.len() as int, keep);
    lemma_restorations(sidecar, states, states.len() as int);
    places(states.len() as int, keep)
}

proof fn lemma_restorations(
    sidecar: RecoverySidecarModel,
    states: Seq<ClassifiedTable>,
    n: int,
)
    requires
        0 <= n <= states.len(),
    ensures
        ({
            let list = restorations(sidecar, states, n);
            let tables = places(n, |i: int| taken_back(sidecar, states[i]));
            &&& list.len() == tables.len()
            &&& forall|k: int|
                0 <= k < list.len() ==> {
                    let pin = sidecar.tables[tables[k]];
                    &&& sets_back(#[trigger] list[k], pin, states[tables[k]])
                    &&& list[k].table_key == pin.table_key
                    &&& list[k].table_branch == pin.table_branch
                }
        }),
    decreases n,
{
    if n > 0 {
        lemma_restorations(sidecar, states, n - 1);
    }
}

/// Whether an outcome says that a table went from its head back to what the manifest
/// selects.
pub open spec fn goes_back(outcome: TableOutcomeModel, state: ClassifiedTable) -> bool {
    outcome.from_version == state.lance_head && outcome.to_version == state.manifest_pinned
}

/// The alias that a table had before an attempt that may rename it.
pub open spec fn alias_before(
    renames: Seq<SidecarTableRenameModel>,
    pin: SidecarTablePinModel,
) -> Seq<char> {
    match find_by_identity::<SidecarTableRename>(renames, pin.identity) {
        Some(rename) => rename.expected_table_key,
        None => pin.table_key,
    }
}

/// The audit plan of a rollback names every table that is taken back, each once, in
/// order, and no other: with its head and the version that it goes back to, under the
/// alias that it has afterwards.
pub proof fn lemma_the_plan_names_every_table(
    sidecar: RecoverySidecarModel,
    states: Seq<ClassifiedTable>,
) -> (tables: Seq<int>)
    requires
        states.len() == sidecar.tables.len(),
    ensures
        picks(tables, states.len() as int, |i: int| taken_back(sidecar, states[i])),
        ({
            let plan = undo_outcomes(sidecar, states, states.len() as int);
            let done = done_outcomes(sidecar, states, states.len() as int);
            &&& plan.len() == tables.len()
            &&& done.len() == tables.len()
            &&& forall|k: int|
                0 <= k < tables.len() ==> {
                    let pin = sidecar.tables[#[trigger] tables[k]];
                    &&& goes_back(plan[k], states[tables[k]])
                    &&& plan[k].table_key == match sidecar.protocol_v7 {
                        Some(payload) => alias_before(payload.intended_delta.renames, pin),
                        None => pin.table_key,
                    }
                    &&& goes_back(done[k], states[tables[k]])
                    &&& done[k].table_key == pin.table_key
                }
        }),
{
    let keep = |i: int| taken_back(sidecar, states[i]);
    lemma_places(states.len() as int, keep);
    lemma_outcomes(sidecar, states, states.len() as int);
    places(states.len() as int, keep)
}

proof fn lemma_outcomes(sidecar: RecoverySidecarModel, states: Seq<ClassifiedTable>, n: int)
    requires
        0 <= n <= states.len(),
    ensures
        ({
            let plan = undo_outcomes(sidecar, states, n);
            let done = done_outcomes(sidecar, states, n);
            let tables = places(n, |i: int| taken_back(sidecar, states[i]));
            &&& plan.len() == tables.len()
            &&& done.len() == tables.len()
            &&& forall|k: int|
                0 <= k < tables.len() ==> {
                    let pin = sidecar.tables[#[trigger] tables[k]];
                    &&& goes_back(plan[k], states[tables[k]])
                    &&& plan[k].table_key == match sidecar.protocol_v7 {
                        Some(payload) => alias_before(payload.intended_delta.renames, pin),
                        None => pin.table_key,
                    }
                    &&& goes_back(done[k], states[tables[k]])
                    &&& done[k].table_key == pin.table_key
                }
        }),
    decreases n,
{
    if n > 0 {
        lemma_outcomes(sidecar, states, n - 1);
    }
}

/// A rollback of a schema apply sets back, on main, every table that the apply
/// rewrote and did not create, and no other, under the alias that it had before.
pub proof fn lemma_every_rewritten_table_is_set_back(
    payload: RecoveryProtocolV7Model,
    pins: Seq<SidecarTablePinModel>,
    states: Seq<ClassifiedTable>,
) -> (tables: Seq<int>)
    requires
        states.len() == pins.len(),
    ensures
        picks(
            tables,
            states.len() as int,
            |i: int|
                at_head(states[i]) && !(find_by_identity::<RecoverySchemaApplyEffect>(
                    payload.effects,
                    pins[i].identity,
                )->0.kind is FirstTouchDataset),
        ),
        ({
            let list = schema_restorations(payload, pins, states, states.len() as int);
            &&& list.len() == tables.len()
            &&& forall|k: int|
                0 <= k < list.len() ==> {
                    let pin = pins[tables[k]];
                    &&& sets_back(#[trigger] list[k], pin, states[tables[k]])
                    &&& list[k].table_key == alias_before(payload.intended_delta.renames, pin)
                    &&& list[k].table_branch is None
                }
        }),
{
    let keep = |i: int|
        at_head(states[i]) && !(find_by_identity::<RecoverySchemaApplyEffect>(
            payload.effects,
            pins[i].identity,
        )->0.kind is FirstTouchDataset);
    lemma_places(states.len() as int, keep);
    lemma_schema_restorations(payload, pins, states, states.len() as int);
    places(states.len() as int, keep)
}

proof fn lemma_schema_restorations(
    payload: RecoveryProtocolV7Model,
    pins: Seq<SidecarTablePinModel>,
    states: Seq<ClassifiedTable>,
    n: int,
)
    requires
        0 <= n <= states.len(),
    ensures
        ({
            let list = schema_restorations(payload, pins, states, n);
            let tables = places(
                n,
                |i: int|
                    at_head(states[i]) && !(find_by_identity::<RecoverySchemaApplyEffect>(
                        payload.effects,
                        pins[i].identity,
                    )->0.kind is FirstTouchDataset),
            );
            &&& list.len() == tables.len()
            &&& forall|k: int|
                0 <= k < list.len() ==> {
                    let pin = pins[tables[k]];
                    &&& sets_back(#[trigger] list[k], pin, states[tables[k]])
                    &&& list[k].table_key == alias_before(payload.intended_delta.renames, pin)
                    &&& list[k].table_branch is None
                }
        }),
    decreases n,
{
    if n > 0 {
        lemma_schema_restorations(payload, pins, states, n - 1);
    }
}

/// A rollback of an ensure-indices run sets back every table that the run committed
/// to and did not fork, and no other, on its branch and under its alias.
pub proof fn lemma_every_indexed_table_is_set_back(
    payload: RecoveryProtocolV8Model,
    pins: Seq<SidecarTablePinModel>,
    states: Seq<ClassifiedTable>,
) -> (tables: Seq<int>)
    requires
        states.len() == pins.len(),
    ensures
        picks(
            tables,
            states.len() as int,
            |i: int|
                at_head(states[i]) && find_by_identity::<RecoveryEnsureIndicesEffect>(
                    payload.effects,
                    pins[i].identity,
                )->0.source_fork_version is None,
        ),
        ({
            let list = index_restorations(payload, pins, states, states.len() as int);
            &&& list.len() == tables.len()
            &&& forall|k: int|
                0 <= k < list.len() ==> {
                    let pin = pins[tables[k]];
                    &&& sets_back(#[trigger] list[k], pin, states[tables[k]])
                    &&& list[k].table_key == pin.table_key
                    &&& list[k].table_branch == pin.table_branch
                }
        }),
{
    let keep = |i: int|
        at_head(states[i]) && find_by_identity::<RecoveryEnsureIndicesEffect>(
            payload.effects,
            pins[i].identity,
        )->0.source_fork_version is None;
    lemma_places(states.len() as int, keep);
    lemma_index_restorations(payload, pins, states, states.len() as int);
    places(states.len() as int, keep)
}

proof fn lemma_index_restorations(
    payload: RecoveryProtocolV8Model,
    pins: Seq<SidecarTablePinModel>,
    states: Seq<ClassifiedTable>,
    n: int,
)
    requires
        0 <= n <= states.len(),
    ensures
        ({
            let list = index_restorations(payload, pins, states, n);
            let tables = places(
                n,
                |i: int|
                    at_head(states[i]) && find_by_identity::<RecoveryEnsureIndicesEffect>(
                        payload.effects,
                        pins[i].identity,
                    )->0.source_fork_version is None,
            );
            &&& list.len() == tables.len()
            &&& forall|k: int|
                0 <= k < list.len() ==> {
                    let pin = pins[tables[k]];
                    &&& sets_back(#[trigger] list[k], pin, states[tables[k]])
                    &&& list[k].table_key == pin.table_key
                    &&& list[k].table_branch == pin.table_branch
                }
        }),
    decreases n,
{
    if n > 0 {
        lemma_index_restorations(payload, pins, states, n - 1);
    }
}

/// What was set back is published as the store holds it now, table by table, each on
/// the condition that the manifest still selects the version that it was set back to
/// under its alias. That fails only for an alias of no known kind.
pub proof fn lemma_what_is_set_back_is_published(
    list: Seq<RestorationModel>,
    tables: Seq<PublishedTableModel>,
)
    requires
        tables.len() == list.len(),
        forall|k: int, m: int|
            0 <= k < m < list.len() ==> (#[trigger] list[k]).identity != (
            #[trigger] list[m]).identity,
    ensures
        ({
            let result = restored_changes(list, tables, list.len() as int);
            let set = result->Ok_0;
            &&& result is Ok <==> (forall|k: int|
                0 <= k < list.len() ==> path_of(
                    (#[trigger] list[k]).table_key,
                    list[k].identity,
                ) is Some)
            &&& result is Ok ==> set.changes.len() == list.len()
            &&& result is Ok ==> forall|k: int|
                0 <= k < list.len() ==> {
                    &&& #[trigger] set.changes[k] == ManifestChangeModel::Update(
                        SubTableUpdateModel {
                            identity: list[k].identity,
                            table_key: list[k].table_key,
                            table_version: tables[k].table_version,
                            table_branch: list[k].table_branch,
                            row_count: tables[k].row_count,
                            version_metadata: tables[k].version_metadata,
                        },
                    )
                    &&& set.expected.contains_key(list[k].identity)
                    &&& set.expected[list[k].identity].table_key == list[k].table_key
                    &&& set.expected[list[k].identity].table_version == list[k].target_version
                }
            &&& result is Ok ==> forall|identity: TableIdentity| #[trigger]
                set.expected.contains_key(identity) ==> exists|k: int|
                    0 <= k < list.len() && (#[trigger] list[k]).identity == identity
        }),
{
    lemma_restored_changes(list, tables, list.len() as int);
}

proof fn lemma_restored_changes(
    list: Seq<RestorationModel>,
    tables: Seq<PublishedTableModel>,
    n: int,
)
    requires
        0 <= n <= list.len(),
        tables.len() == list.len(),
        forall|k: int, m: int|
            0 <= k < m < list.len() ==> (#[trigger] list[k]).identity != (
            #[trigger] list[m]).identity,
    ensures
        ({
            let result = restored_changes(list, tables, n);
            let set = result->Ok_0;
            &&& result is Ok <==> (forall|k: int|
                0 <= k < n ==> path_of((#[trigger] list[k]).table_key, list[k].identity) is Some)
            &&& result is Ok ==> set.changes.len() == n
            &&& result is Ok ==> forall|k: int|
                0 <= k < n ==> {
                    &&& #[trigger] set.changes[k] == ManifestChangeModel::Update(
                        SubTableUpdateModel {
                            identity: list[k].identity,
                            table_key: list[k].table_key,
                            table_version: tables[k].table_version,
                            table_branch: list[k].table_branch,
                            row_count: tables[k].row_count,
                            version_metadata: tables[k].version_metadata,
                        },
                    )
                    &&& set.expected.contains_key(list[k].identity)
                    &&& set.expected[list[k].identity].table_key == list[k].table_key
                    &&& set.expected[list[k].identity].table_version == list[k].target_version
                }
            &&& result is Ok ==> forall|identity: TableIdentity| #[trigger]
                set.expected.contains_key(identity) ==> exists|k: int|
                    0 <= k < n && (#[trigger] list[k]).identity == identity
        }),
    decreases n,
{
    if n > 0 {
        lemma_restored_changes(list, tables, n - 1);
        let result = restored_changes(list, tables, n);
        if result is Ok {
            let before = restored_changes(list, tables, n - 1)->Ok_0;
            let set = result->Ok_0;
            assert forall|k: int| 0 <= k < n implies {
                &&& set.expected.contains_key((#[trigger] list[k]).identity)
                &&& set.expected[list[k].identity].table_key == list[k].table_key
                &&& set.expected[list[k].identity].table_version == list[k].target_version
            } by {
                if k < n - 1 {
                    assert(before.changes[k] == set.changes[k]);
                    assert(list[k].identity != list[n - 1].identity);
                }
            }
            assert forall|identity: TableIdentity| #[trigger]
                set.expected.contains_key(identity) implies exists|k: int|
                0 <= k < n && (#[trigger] list[k]).identity == identity by {
                if identity == list[n - 1].identity {
                } else {
                    assert(before.expected.contains_key(identity));
                }
            }
            assert forall|k: int| 0 <= k < n - 1 implies #[trigger] set.changes[k]
                == before.changes[k] by {}
        }
    }
}

} // verus!
