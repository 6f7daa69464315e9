//! What a roll-forward publishes and records, table by table.

use vstd::prelude::*;

use crate::classify::ClassifiedTable;
use crate::error::{OmniError, OmniErrorModel};
use crate::identity::{path_of, TableIdentity};
use crate::laws::classifying::lemma_reported_is_the_first;
use crate::laws::forking::is_internal;
use crate::laws::publishing::shows;
use crate::lookup::{find_by_identity, first_place, identities, lemma_has_first_place};
use crate::outcome::{delta_visible, pin_outcomes, slot_visible};
use crate::publish::{
    ChangeSet, ChangeSetModel, ManifestChangeModel, PublishedTableModel, SubTableUpdateModel,
    TableRegistrationModel, TableRenameModel, TableTombstoneModel,
};
use crate::rollforward::{
    forward_outcomes, forward_pins, forward_plan, forward_registrations, forward_tombstones,
    live_versions, publish_schema_apply_v7_forward, roll_forward_confirmed_delta, schema_changes,
    slot_changes, slot_outcomes, stale_outcomes, unconfirmed_schema_slots, unconfirmed_slots,
    with_registrations, with_renames, with_slots, with_tombstones, ForwardPlanModel,
};
use crate::shape::defect::{first_defect, lemma_all_sound, lemma_sound_pins};
use crate::shape::mutation_load::table_findings;
use crate::shape::sound::lemma_sound_mutation;
use crate::shape::validate::shape_fault;
use crate::sidecar::{
    RecoveryConfirmedTableUpdateModel, RecoveryManifestDelta, RecoveryManifestDeltaModel,
    RecoverySidecar, RecoverySidecarModel,
    RecoveryTableUpdateSlot, RecoveryTableUpdateSlotModel, SidecarTablePin, SidecarTablePinModel,
    SidecarTableRegistrationModel, SidecarTableRenameModel, SidecarTombstoneModel,
    TableOutcome, TableOutcomeModel,
};
use crate::snapshot::SnapshotModel;
use crate::value::views;

verus! {

/// Whether no two pins are of the same table.
pub open spec fn pins_apart(pins: Seq<SidecarTablePinModel>) -> bool {
    forall|i: int, j: int|
        0 <= i < j < pins.len() ==> (#[trigger] pins[i]).identity != (#[trigger] pins[j]).identity
}

/// Whether a change set expects one version of a table, under an alias.
pub open spec fn expects(
    set: ChangeSetModel,
    identity: TableIdentity,
    alias: Seq<char>,
    version: u64,
) -> bool {
    &&& set.expected.contains_key(identity)
    &&& set.expected[identity].table_key == alias
    &&& set.expected[identity].table_version == version
}

/// The update that publishes a table under an alias exactly as it was confirmed.
pub open spec fn as_confirmed(
    identity: TableIdentity,
    alias: Seq<char>,
    confirmed: RecoveryConfirmedTableUpdateModel,
) -> ManifestChangeModel {
    ManifestChangeModel::Update(
        SubTableUpdateModel {
            identity,
            table_key: alias,
            table_version: confirmed.table_version,
            table_branch: confirmed.table_branch,
            row_count: confirmed.row_count,
            version_metadata: confirmed.version_metadata,
        },
    )
}

/// The update that publishes a table on a branch as the store holds it.
pub open spec fn as_stored(
    identity: TableIdentity,
    alias: Seq<char>,
    branch: Option<Seq<char>>,
    table: PublishedTableModel,
) -> ManifestChangeModel {
    ManifestChangeModel::Update(
        SubTableUpdateModel {
            identity,
            table_key: alias,
            table_version: table.table_version,
            table_branch: branch,
            row_count: table.row_count,
            version_metadata: table.version_metadata,
        },
    )
}

/// The output slot of a pinned table in the payload of a mutation or load.
pub open spec fn own_slot(
    sidecar: RecoverySidecarModel,
    pin: SidecarTablePinModel,
) -> Option<RecoveryTableUpdateSlotModel> {
    find_by_identity::<RecoveryTableUpdateSlot>(
        (sidecar.protocol_v3->0).intended_delta.table_updates,
        pin.identity,
    )
}

/// Whether the plan publishes one pinned table: an exact attempt as its slot was
/// confirmed, over the version that the slot expects, any other as the store holds
/// it, over the version that the pin expects.
pub open spec fn publishes(
    sidecar: RecoverySidecarModel,
    plan: ForwardPlanModel,
    pinned: Seq<Option<PublishedTableModel>>,
    i: int,
) -> bool {
    let pin = sidecar.tables[i];
    let set = plan.changes;
    if sidecar.protocol_v3 is Some {
        let slot = own_slot(sidecar, pin)->0;
        let confirmed = slot.confirmed->0;
        &&& set.changes[i] == as_confirmed(pin.identity, pin.table_key, confirmed)
        &&& expects(set, pin.identity, pin.table_key, slot.expected_version)
        &&& plan.published_versions.contains_key(pin.identity)
        &&& plan.published_versions[pin.identity] == confirmed.table_version
    } else {
        &&& set.changes[i] == as_stored(
            pin.identity,
            pin.table_key,
            pin.table_branch,
            pinned[i]->0,
        )
        &&& expects(set, pin.identity, pin.table_key, pin.expected_version)
        &&& plan.published_versions.contains_key(pin.identity)
        &&& plan.published_versions[pin.identity] == pinned[i]->0.table_version
    }
}

/// Whether one pinned table can be published: an exact attempt needs a confirmed slot
/// that names the head which was classified, any other an alias of a known kind.
pub open spec fn publishable(
    sidecar: RecoverySidecarModel,
    states: Seq<ClassifiedTable>,
    i: int,
) -> bool {
    let pin = sidecar.tables[i];
    if sidecar.protocol_v3 is Some {
        let slot = own_slot(sidecar, pin);
        slot is Some && slot->0.confirmed is Some && slot->0.confirmed->0.table_version
            == states[i].lance_head
    } else {
        path_of(pin.table_key, pin.identity) is Some
    }
}

proof fn lemma_pins(
    sidecar: RecoverySidecarModel,
    states: Seq<ClassifiedTable>,
    pinned: Seq<Option<PublishedTableModel>>,
    n: int,
)
    requires
        0 <= n <= sidecar.tables.len(),
        pins_apart(sidecar.tables),
    ensures
        ({
            let result = forward_pins(sidecar, states, pinned, n);
            let plan = result->Ok_0;
            &&& result is Ok <==> (forall|i: int|
                0 <= i < n ==> #[trigger] publishable(sidecar, states, i))
            &&& result is Ok ==> plan.changes.changes.len() == n
            &&& result is Ok ==> forall|i: int|
                0 <= i < n ==> #[trigger] publishes(sidecar, plan, pinned, i)
        }),
    decreases n,
{
    if n > 0 {
        lemma_pins(sidecar, states, pinned, n - 1);
        let earlier = forward_pins(sidecar, states, pinned, n - 1);
        let result = forward_pins(sidecar, states, pinned, n);
        assert(result is Ok <==> earlier is Ok && publishable(sidecar, states, n - 1));
        if result is Ok {
            let before = earlier->Ok_0;
            let plan = result->Ok_0;
            let pins = sidecar.tables;
            assert forall|i: int| 0 <= i < n implies #[trigger] publishes(
                sidecar,
                plan,
                pinned,
                i,
            ) by {
                if i < n - 1 {
                    assert(publishes(sidecar, before, pinned, i));
                    assert(pins[i].identity != pins[n - 1].identity);
                    assert(plan.changes.changes[i] == before.changes.changes[i]);
                } else {
                    assert(plan.changes.changes[i] == plan.changes.changes.last());
                }
            }
        }
    }
}

/// Whether two plans hold the same for one table.
spec fn same_for(before: ForwardPlanModel, after: ForwardPlanModel, identity: TableIdentity) -> bool {
    &&& before.changes.expected.contains_key(identity) == after.changes.expected.contains_key(
        identity,
    )
    &&& before.changes.expected[identity] == after.changes.expected[identity]
    &&& before.published_versions.contains_key(identity) == after.published_versions.contains_key(
        identity,
    )
    &&& before.published_versions[identity] == after.published_versions[identity]
}

/// Whether a plan starts with the changes of another.
spec fn continues(before: ForwardPlanModel, after: ForwardPlanModel) -> bool {
    &&& before.changes.changes.len() <= after.changes.changes.len()
    &&& forall|k: int|
        0 <= k < before.changes.changes.len() ==> #[trigger] after.changes.changes[k]
            == before.changes.changes[k]
}

/// Whether a plan registers a table and publishes it as the store holds it, right
/// after each other, on the condition that the manifest does not have it.
pub open spec fn registers(
    plan: ForwardPlanModel,
    registration: SidecarTableRegistrationModel,
    table: PublishedTableModel,
    k: int,
) -> bool {
    &&& 0 <= k
    &&& k + 1 < plan.changes.changes.len()
    &&& plan.changes.changes[k] == ManifestChangeModel::RegisterTable(
        TableRegistrationModel {
            identity: registration.identity,
            table_key: registration.table_key,
            table_path: registration.table_path,
        },
    )
    &&& plan.changes.changes[k + 1] == as_stored(
        registration.identity,
        registration.table_key,
        registration.table_branch,
        table,
    )
    &&& expects(plan.changes, registration.identity, registration.table_key, 0)
    &&& plan.published_versions.contains_key(registration.identity)
    &&& plan.published_versions[registration.identity] == table.table_version
}

/// Whether a plan takes up one registration: one that the manifest has is reported as
/// it is selected, any other is registered and published.
pub open spec fn takes_up(
    plan: ForwardPlanModel,
    snapshot: SnapshotModel,
    registration: SidecarTableRegistrationModel,
    table: Option<PublishedTableModel>,
) -> bool {
    match snapshot.by_identity(registration.identity) {
        Some(entry) => {
            &&& entry.table.table_key == registration.table_key
            &&& plan.published_versions.contains_key(registration.identity)
            &&& plan.published_versions[registration.identity] == entry.table.table_version
        },
        None => exists|k: int| #[trigger] registers(plan, registration, table->0, k),
    }
}

/// Whether no two registrations are of the same table.
pub open spec fn registrations_apart(list: Seq<SidecarTableRegistrationModel>) -> bool {
    forall|i: int, j: int|
        0 <= i < j < list.len() ==> (#[trigger] list[i]).identity != (#[trigger] list[j]).identity
}

proof fn lemma_registrations(
    start: ForwardPlanModel,
    snapshot: SnapshotModel,
    list: Seq<SidecarTableRegistrationModel>,
    tables: Seq<Option<PublishedTableModel>>,
    n: int,
)
    requires
        0 <= n <= list.len(),
        registrations_apart(list),
    ensures
        ({
            let begun = Ok::<ForwardPlanModel, OmniErrorModel>(start);
            let result = forward_registrations(begun, snapshot, list, tables, n);
            let plan = result->Ok_0;
            &&& result is Ok <==> (forall|i: int|
                0 <= i < n ==> match snapshot.by_identity((#[trigger] list[i]).identity) {
                    Some(entry) => entry.table.table_key == list[i].table_key,
                    None => true,
                })
            &&& result is Ok ==> continues(start, plan)
            &&& result is Ok ==> forall|i: int|
                0 <= i < n ==> takes_up(plan, snapshot, #[trigger] list[i], tables[i])
            &&& result is Ok ==> forall|identity: TableIdentity|
                (forall|i: int| 0 <= i < n ==> (#[trigger] list[i]).identity != identity)
                    ==> #[trigger] same_for(start, plan, identity)
        }),
    decreases n,
{
    if n > 0 {
        lemma_registrations(start, snapshot, list, tables, n - 1);
        let begun = Ok::<ForwardPlanModel, OmniErrorModel>(start);
        let earlier = forward_registrations(begun, snapshot, list, tables, n - 1);
        let result = forward_registrations(begun, snapshot, list, tables, n);
        let last = list[n - 1];
        if result is Ok {
            let before = earlier->Ok_0;
            let plan = result->Ok_0;
            assert(continues(before, plan));
            assert forall|i: int| 0 <= i < n implies takes_up(
                plan,
                snapshot,
                #[trigger] list[i],
                tables[i],
            ) by {
                if i < n - 1 {
                    assert(takes_up(before, snapshot, list[i], tables[i]));
                    assert(list[i].identity != last.identity);
                    if snapshot.by_identity(list[i].identity) is None {
                        let k = choose|k: int| #[trigger] registers(
                            before,
                            list[i],
                            tables[i]->0,
                            k,
                        );
                        assert(plan.changes.changes[k] == before.changes.changes[k]);
                        assert(plan.changes.changes[k + 1] == before.changes.changes[k + 1]);
                        assert(registers(plan, list[i], tables[i]->0, k));
                    }
                } else if snapshot.by_identity(last.identity) is None {
                    assert(registers(
                        plan,
                        last,
                        tables[i]->0,
                        before.changes.changes.len() as int,
                    ));
                }
            }
            assert forall|identity: TableIdentity|
                (forall|i: int| 0 <= i < n ==> (#[trigger] list[i]).identity
                    != identity) implies #[trigger] same_for(start, plan, identity) by {
                assert(list[n - 1].identity != identity);
                assert(same_for(start, before, identity));
            }
        }
    }
}

/// The removal of a table.
pub open spec fn removal(tombstone: SidecarTombstoneModel) -> ManifestChangeModel {
    ManifestChangeModel::Tombstone(
        TableTombstoneModel {
            identity: tombstone.identity,
            table_key: tombstone.table_key,
            tombstone_version: tombstone.tombstone_version,
        },
    )
}

/// Whether no two removals are of the same table.
pub open spec fn removals_apart(list: Seq<SidecarTombstoneModel>) -> bool {
    forall|i: int, j: int|
        0 <= i < j < list.len() ==> (#[trigger] list[i]).identity != (#[trigger] list[j]).identity
}

proof fn lemma_removals(
    start: ForwardPlanModel,
    snapshot: SnapshotModel,
    list: Seq<SidecarTombstoneModel>,
    n: int,
)
    requires
        0 <= n <= list.len(),
        removals_apart(list),
    ensures
        ({
            let plan = forward_tombstones(start, snapshot, list, n);
            &&& continues(start, plan)
            &&& plan.published_versions == start.published_versions
            &&& forall|i: int|
                0 <= i < n && snapshot.by_identity((#[trigger] list[i]).identity) is Some ==> {
                    &&& plan.changes.changes.contains(removal(list[i]))
                    &&& expects(
                        plan.changes,
                        list[i].identity,
                        list[i].table_key,
                        if list[i].tombstone_version == 0 {
                            0
                        } else {
                            (list[i].tombstone_version - 1) as u64
                        },
                    )
                }
            &&& forall|identity: TableIdentity|
                (forall|i: int| 0 <= i < n ==> (#[trigger] list[i]).identity != identity)
                    ==> #[trigger] same_for(start, plan, identity)
        }),
    decreases n,
{
    if n > 0 {
        lemma_removals(start, snapshot, list, n - 1);
        let before = forward_tombstones(start, snapshot, list, n - 1);
        let plan = forward_tombstones(start, snapshot, list, n);
        let last = list[n - 1];
        assert forall|i: int|
            0 <= i < n && snapshot.by_identity((#[trigger] list[i]).identity) is Some implies {
            &&& plan.changes.changes.contains(removal(list[i]))
            &&& expects(
                plan.changes,
                list[i].identity,
                list[i].table_key,
                if list[i].tombstone_version == 0 {
                    0
                } else {
                    (list[i].tombstone_version - 1) as u64
                },
            )
        } by {
            if i < n - 1 {
                assert(list[i].identity != last.identity);
                let changes = before.changes.changes;
                assert(changes.contains(removal(list[i])));
                let k = choose|k: int| 0 <= k < changes.len() && changes[k] == removal(list[i]);
                assert(plan.changes.changes[k] == removal(list[i]));
            } else {
                assert(plan.changes.changes[before.changes.changes.len() as int] == removal(last));
            }
        }
        assert forall|identity: TableIdentity|
            (forall|i: int| 0 <= i < n ==> (#[trigger] list[i]).identity
                != identity) implies #[trigger] same_for(start, plan, identity) by {
            assert(list[n - 1].identity != identity);
            assert(same_for(start, before, identity));
        }
    }
}

/// Whether the tables that a sidecar pins, registers and removes are all different.
pub open spec fn tables_apart(sidecar: RecoverySidecarModel) -> bool {
    &&& pins_apart(sidecar.tables)
    &&& registrations_apart(sidecar.additional_registrations)
    &&& removals_apart(sidecar.tombstones)
    &&& forall|i: int, j: int|
        0 <= i < sidecar.tables.len() && 0 <= j < sidecar.additional_registrations.len() ==> (
        #[trigger] sidecar.tables[i]).identity != (
        #[trigger] sidecar.additional_registrations[j]).identity
    &&& forall|i: int, j: int|
        0 <= i < sidecar.tables.len() && 0 <= j < sidecar.tombstones.len() ==> (
        #[trigger] sidecar.tables[i]).identity != (#[trigger] sidecar.tombstones[j]).identity
    &&& forall|i: int, j: int|
        0 <= i < sidecar.additional_registrations.len() && 0 <= j < sidecar.tombstones.len() ==> (
        #[trigger] sidecar.additional_registrations[i]).identity != (
        #[trigger] sidecar.tombstones[j]).identity
}

/// A roll-forward publishes every pinned table, in order and before anything else, as
/// it was confirmed or as the store holds it; it registers and publishes every table
/// that the manifest lacks, and removes every table that the manifest still has. Each
/// is published on the condition that the manifest is where the attempt found it. It
/// can be planned exactly where every table can be published and no table that is to
/// be registered is there under another alias.
pub proof fn lemma_forward_publishes_every_table(
    sidecar: RecoverySidecarModel,
    states: Seq<ClassifiedTable>,
    snapshot: SnapshotModel,
    pinned: Seq<Option<PublishedTableModel>>,
    registered: Seq<Option<PublishedTableModel>>,
)
    requires
        tables_apart(sidecar),
    ensures
        ({
            let list = sidecar.additional_registrations;
            let removals = sidecar.tombstones;
            let result = forward_plan(sidecar, states, snapshot, pinned, registered);
            let plan = result->Ok_0;
            &&& result is Ok <==> (forall|i: int|
                0 <= i < sidecar.tables.len() ==> #[trigger] publishable(sidecar, states, i)) && (
            forall|i: int|
                0 <= i < list.len() ==> match snapshot.by_identity((#[trigger] list[i]).identity) {
                    Some(entry) => entry.table.table_key == list[i].table_key,
                    None => true,
                })
            &&& result is Ok ==> forall|i: int|
                0 <= i < sidecar.tables.len() ==> #[trigger] publishes(sidecar, plan, pinned, i)
            &&& result is Ok ==> forall|i: int|
                0 <= i < list.len() ==> takes_up(plan, snapshot, #[trigger] list[i], registered[i])
            &&& result is Ok ==> forall|i: int|
                0 <= i < removals.len() && snapshot.by_identity((#[trigger] removals[i]).identity)
                    is Some ==> {
                    &&& plan.changes.changes.contains(removal(removals[i]))
                    &&& expects(
                        plan.changes,
                        removals[i].identity,
                        removals[i].table_key,
                        if removals[i].tombstone_version == 0 {
                            0
                        } else {
                            (removals[i].tombstone_version - 1) as u64
                        },
                    )
                }
            &&& result is Ok && list.len() == 0 && removals.len() == 0
                ==> plan.changes.changes.len() == sidecar.tables.len()
        }),
{
    let pins = sidecar.tables;
    let list = sidecar.additional_registrations;
    let removals = sidecar.tombstones;
    lemma_pins(sidecar, states, pinned, pins.len() as int);
    let first = forward_pins(sidecar, states, pinned, pins.len() as int);
    let second = forward_registrations(first, snapshot, list, registered, list.len() as int);
    let result = forward_plan(sidecar, states, snapshot, pinned, registered);
    if first is Err {
        lemma_error_stays(first, snapshot, list, registered, list.len() as int);
    } else {
        lemma_registrations(first->Ok_0, snapshot, list, registered, list.len() as int);
    }
    if result is Ok {
        let begun = first->Ok_0;
        let middle = second->Ok_0;
        let plan = result->Ok_0;
        lemma_removals(middle, snapshot, removals, removals.len() as int);
        assert forall|i: int| 0 <= i < pins.len() implies #[trigger] publishes(
            sidecar,
            plan,
            pinned,
            i,
        ) by {
            assert(publishes(sidecar, begun, pinned, i));
            assert forall|j: int| 0 <= j < list.len() implies (#[trigger] list[j]).identity
                != pins[i].identity by {}
            assert forall|j: int| 0 <= j < removals.len() implies (#[trigger] removals[j]).identity
                != pins[i].identity by {}
            assert(same_for(begun, middle, pins[i].identity));
            assert(same_for(middle, plan, pins[i].identity));
            assert(middle.changes.changes[i] == begun.changes.changes[i]);
            assert(plan.changes.changes[i] == middle.changes.changes[i]);
        }
        assert forall|i: int| 0 <= i < list.len() implies takes_up(
            plan,
            snapshot,
            #[trigger] list[i],
            registered[i],
        ) by {
            assert(takes_up(middle, snapshot, list[i], registered[i]));
            assert forall|j: int| 0 <= j < removals.len() implies (#[trigger] removals[j]).identity
                != list[i].identity by {}
            assert(same_for(middle, plan, list[i].identity));
            if snapshot.by_identity(list[i].identity) is None {
                let k = choose|k: int| #[trigger] registers(middle, list[i], registered[i]->0, k);
                assert(plan.changes.changes[k] == middle.changes.changes[k]);
                assert(plan.changes.changes[k + 1] == middle.changes.changes[k + 1]);
                assert(registers(plan, list[i], registered[i]->0, k));
            }
        }
    }
}

proof fn lemma_error_stays(
    start: Result<ForwardPlanModel, OmniErrorModel>,
    snapshot: SnapshotModel,
    list: Seq<SidecarTableRegistrationModel>,
    tables: Seq<Option<PublishedTableModel>>,
    n: int,
)
    requires
        start is Err,
    ensures
        forward_registrations(start, snapshot, list, tables, n) is Err,
    decreases n,
{
    if n > 0 {
        lemma_error_stays(start, snapshot, list, tables, n - 1);
    }
}

/// What the roll-forward of a mutation or load publishes is exactly what it
/// confirmed: once a manifest version shows every planned change, a later pass sees
/// the whole delta.
pub proof fn lemma_forward_mutation_is_visible(
    uri: Seq<char>,
    sidecar: RecoverySidecarModel,
    states: Seq<ClassifiedTable>,
    before: SnapshotModel,
    after: SnapshotModel,
    pinned: Seq<Option<PublishedTableModel>>,
    registered: Seq<Option<PublishedTableModel>>,
)
    requires
        shape_fault(uri, sidecar) is None,
        sidecar.protocol_v3 is Some,
        forward_plan(sidecar, states, before, pinned, registered) is Ok,
        ({
            let changes = forward_plan(
                sidecar,
                states,
                before,
                pinned,
                registered,
            )->Ok_0.changes.changes;
            forall|k: int| 0 <= k < changes.len() ==> shows(after, #[trigger] changes[k])
        }),
    ensures
        delta_visible(after, (sidecar.protocol_v3->0).intended_delta, false),
{
    let payload = sidecar.protocol_v3->0;
    let pins = sidecar.tables;
    let slots = payload.intended_delta.table_updates;
    lemma_sound_mutation(uri, sidecar);
    lemma_sound_pins(pins, false);
    let pin_ids = identities::<SidecarTablePin>(pins);
    let slot_ids = identities::<RecoveryTableUpdateSlot>(slots);
    assert(pins_apart(pins)) by {
        assert forall|i: int, j: int| 0 <= i < j < pins.len() implies (#[trigger] pins[i]).identity
            != (#[trigger] pins[j]).identity by {
            assert(pin_ids[i] != pin_ids[j]);
        }
    }
    assert(sidecar.additional_registrations.len() == 0 && sidecar.tombstones.len() == 0);
    lemma_forward_publishes_every_table(sidecar, states, before, pinned, registered);
    let plan = forward_plan(sidecar, states, before, pinned, registered)->Ok_0;
    let findings = table_findings(payload, pins);
    assert forall|s: int| 0 <= s < slots.len() implies slot_visible(
        after,
        #[trigger] slots[s],
    ) by {
        assert(slot_ids[s] == slots[s].identity);
        assert(pin_ids.contains(slot_ids[s]));
        let i = choose|i: int| 0 <= i < pin_ids.len() && pin_ids[i] == slot_ids[s];
        assert(slot_ids.contains(pin_ids[i]));
        lemma_has_first_place(slot_ids, pin_ids[i]);
        assert(first_place(slot_ids, pin_ids[i]) == s);
        assert(own_slot(sidecar, pins[i]) == Some(slots[s]));
        assert(publishable(sidecar, states, i));
        assert(publishes(sidecar, plan, pinned, i));
        lemma_all_sound(findings, i);
        assert(findings[i] is None);
        assert(slots[s].table_key == pins[i].table_key);
        assert(shows(after, plan.changes.changes[i]));
    }
}

/// The confirmed delta of a branch merge or an ensure-indices run is published slot by
/// slot, as it was confirmed, each on the condition that the manifest still selects
/// the version that the slot expects.
pub proof fn lemma_every_slot_is_published(slots: Seq<RecoveryTableUpdateSlotModel>)
    requires
        forall|i: int, j: int|
            0 <= i < j < slots.len() ==> (#[trigger] slots[i]).identity != (
            #[trigger] slots[j]).identity,
    ensures
        ({
            let set = slot_changes(slots, slots.len() as int);
            &&& set.changes.len() == slots.len()
            &&& forall|i: int|
                0 <= i < slots.len() ==> {
                    &&& #[trigger] set.changes[i] == as_confirmed(
                        slots[i].identity,
                        slots[i].table_key,
                        slots[i].confirmed->0,
                    )
                    &&& expects(
                        set,
                        slots[i].identity,
                        slots[i].table_key,
                        slots[i].expected_version,
                    )
                }
        }),
{
    lemma_slots(slots, slots.len() as int);
}

proof fn lemma_slots(slots: Seq<RecoveryTableUpdateSlotModel>, n: int)
    requires
        0 <= n <= slots.len(),
        forall|i: int, j: int|
            0 <= i < j < slots.len() ==> (#[trigger] slots[i]).identity != (
            #[trigger] slots[j]).identity,
    ensures
        ({
            let set = slot_changes(slots, n);
            &&& set.changes.len() == n
            &&& forall|i: int|
                0 <= i < n ==> {
                    &&& #[trigger] set.changes[i] == as_confirmed(
                        slots[i].identity,
                        slots[i].table_key,
                        slots[i].confirmed->0,
                    )
                    &&& expects(
                        set,
                        slots[i].identity,
                        slots[i].table_key,
                        slots[i].expected_version,
                    )
                }
        }),
    decreases n,
{
    if n > 0 {
        lemma_slots(slots, n - 1);
        let before = slot_changes(slots, n - 1);
        let set = slot_changes(slots, n);
        assert forall|i: int| 0 <= i < n implies {
            &&& #[trigger] set.changes[i] == as_confirmed(
                slots[i].identity,
                slots[i].table_key,
                slots[i].confirmed->0,
            )
            &&& expects(set, slots[i].identity, slots[i].table_key, slots[i].expected_version)
        } by {
            if i < n - 1 {
                assert(set.changes[i] == before.changes[i]);
                assert(slots[i].identity != slots[n - 1].identity);
            }
        }
    }
}

/// Whether an outcome is that of one table.
pub open spec fn tells(
    outcome: TableOutcomeModel,
    alias: Seq<char>,
    from: u64,
    to: u64,
) -> bool {
    outcome.table_key == alias && outcome.from_version == from && outcome.to_version == to
}

/// The audit row of a roll-forward tells of every table which version it had before
/// and which one is visible: first the pinned tables, then those that were registered.
pub proof fn lemma_forward_is_recorded(
    sidecar: RecoverySidecarModel,
    states: Seq<ClassifiedTable>,
    visible: Map<TableIdentity, u64>,
    snapshot: SnapshotModel,
)
    requires
        states.len() == sidecar.tables.len(),
    ensures
        ({
            let fresh = forward_outcomes(sidecar, visible);
            let stale = stale_outcomes(sidecar, states, snapshot);
            let pins = sidecar.tables;
            let list = sidecar.additional_registrations;
            &&& fresh.len() == pins.len() + list.len()
            &&& stale.len() == pins.len() + list.len()
            &&& forall|i: int|
                0 <= i < pins.len() ==> {
                    let pin = #[trigger] pins[i];
                    &&& tells(
                        fresh[i],
                        pin.table_key,
                        pin.expected_version,
                        if visible.contains_key(pin.identity) {
                            visible[pin.identity]
                        } else {
                            pin.post_commit_pin
                        },
                    )
                    &&& tells(
                        stale[i],
                        pin.table_key,
                        pin.expected_version,
                        states[i].manifest_pinned,
                    )
                }
            &&& forall|i: int|
                0 <= i < list.len() ==> {
                    let registration = #[trigger] list[i];
                    &&& tells(
                        fresh[pins.len() + i],
                        registration.table_key,
                        0,
                        if visible.contains_key(registration.identity) {
                            visible[registration.identity]
                        } else {
                            0
                        },
                    )
                    &&& tells(
                        stale[pins.len() + i],
                        registration.table_key,
                        0,
                        match snapshot.by_identity(registration.identity) {
                            Some(entry) => entry.table.table_version,
                            None => 0,
                        },
                    )
                }
        }),
{
}

/// The audit row of an exact roll-forward tells of every confirmed table which version
/// it had before and which one was confirmed.
pub proof fn lemma_confirmed_outcomes(
    slots: Seq<RecoveryTableUpdateSlotModel>,
    pins: Seq<SidecarTablePinModel>,
)
    ensures
        slot_outcomes(slots).len() == slots.len(),
        forall|i: int|
            0 <= i < slots.len() ==> tells(
                slot_outcomes(slots)[i],
                (#[trigger] slots[i]).table_key,
                slots[i].expected_version,
                slots[i].confirmed->0.table_version,
            ),
        pin_outcomes(pins, slots).len() == pins.len(),
        forall|i: int|
            0 <= i < pins.len() ==> tells(
                pin_outcomes(pins, slots)[i],
                (#[trigger] pins[i]).table_key,
                pins[i].expected_version,
                find_by_identity::<RecoveryTableUpdateSlot>(
                    slots,
                    pins[i].identity,
                )->0.confirmed->0.table_version,
            ),
{
}

/// The versions of a manifest version are those of its tables.
pub proof fn lemma_live_versions(snapshot: SnapshotModel, identity: TableIdentity)
    ensures
        live_versions(snapshot).contains_key(identity) <==> snapshot.by_identity(identity) is Some,
        snapshot.by_identity(identity) matches Some(entry) ==> live_versions(snapshot)[identity]
            == entry.table.table_version,
{
}

/// Whether no two parts of a delta are of the same table, but for the slot of a table
/// that is registered or renamed too.
pub open spec fn delta_apart(delta: RecoveryManifestDeltaModel) -> bool {
    &&& registrations_apart(delta.registrations)
    &&& removals_apart(delta.tombstones)
    &&& forall|i: int, j: int|
        0 <= i < j < delta.renames.len() ==> (#[trigger] delta.renames[i]).identity != (
        #[trigger] delta.renames[j]).identity
    &&& forall|i: int, j: int|
        0 <= i < j < delta.table_updates.len() ==> (#[trigger] delta.table_updates[i]).identity != (
        #[trigger] delta.table_updates[j]).identity
    &&& forall|i: int, j: int|
        0 <= i < delta.registrations.len() && 0 <= j < delta.renames.len() ==> (
        #[trigger] delta.registrations[i]).identity != (#[trigger] delta.renames[j]).identity
    &&& forall|i: int, j: int|
        0 <= i < delta.tombstones.len() && 0 <= j < delta.registrations.len() ==> (
        #[trigger] delta.tombstones[i]).identity != (#[trigger] delta.registrations[j]).identity
    &&& forall|i: int, j: int|
        0 <= i < delta.tombstones.len() && 0 <= j < delta.renames.len() ==> (
        #[trigger] delta.tombstones[i]).identity != (#[trigger] delta.renames[j]).identity
    &&& forall|i: int, j: int|
        0 <= i < delta.tombstones.len() && 0 <= j < delta.table_updates.len() ==> (
        #[trigger] delta.tombstones[i]).identity != (#[trigger] delta.table_updates[j]).identity
}

/// The change that registers a table.
pub open spec fn registration_change(
    registration: SidecarTableRegistrationModel,
) -> ManifestChangeModel {
    ManifestChangeModel::RegisterTable(
        TableRegistrationModel {
            identity: registration.identity,
            table_key: registration.table_key,
            table_path: registration.table_path,
        },
    )
}

/// The change that renames a table.
pub open spec fn rename_change(rename: SidecarTableRenameModel) -> ManifestChangeModel {
    ManifestChangeModel::RenameTable(
        TableRenameModel {
            identity: rename.identity,
            expected_table_key: rename.expected_table_key,
            table_key: rename.table_key,
            table_path: rename.table_path,
        },
    )
}

/// Whether a delta registers or renames a table.
pub open spec fn aliases_table(
    delta: RecoveryManifestDeltaModel,
    identity: TableIdentity,
) -> bool {
    ||| exists|i: int|
        0 <= i < delta.registrations.len() && (#[trigger] delta.registrations[i]).identity
            == identity
    ||| exists|i: int|
        0 <= i < delta.renames.len() && (#[trigger] delta.renames[i]).identity == identity
}

/// A schema apply publishes all of its delta in one set of changes: it registers, then
/// renames, then updates each table as it was confirmed, then removes. A new table must
/// not be there, a renamed one must have its old alias and version, an updated one that
/// is neither must have the version that its slot expects, and a removed one the
/// version before its removal.
pub proof fn lemma_schema_apply_publishes_its_delta(delta: RecoveryManifestDeltaModel)
    requires
        delta_apart(delta),
    ensures
        ({
            let set = schema_changes(delta);
            let a = delta.registrations.len();
            let b = a + delta.renames.len();
            let c = b + delta.table_updates.len();
            &&& set.changes.len() == c + delta.tombstones.len()
            &&& forall|i: int|
                0 <= i < delta.registrations.len() ==> {
                    let registration = #[trigger] delta.registrations[i];
                    &&& set.changes[i] == registration_change(registration)
                    &&& expects(set, registration.identity, registration.table_key, 0)
                }
            &&& forall|i: int|
                0 <= i < delta.renames.len() ==> {
                    let rename = #[trigger] delta.renames[i];
                    &&& set.changes[a + i] == rename_change(rename)
                    &&& expects(
                        set,
                        rename.identity,
                        rename.expected_table_key,
                        rename.expected_version,
                    )
                }
            &&& forall|i: int|
                0 <= i < delta.table_updates.len() ==> {
                    let slot = #[trigger] delta.table_updates[i];
                    &&& set.changes[b + i] == as_confirmed(
                        slot.identity,
                        slot.table_key,
                        slot.confirmed->0,
                    )
                    &&& !aliases_table(delta, slot.identity) ==> expects(
                        set,
                        slot.identity,
                        slot.table_key,
                        slot.expected_version,
                    )
                }
            &&& forall|i: int|
                0 <= i < delta.tombstones.len() ==> {
                    let tombstone = #[trigger] delta.tombstones[i];
                    &&& set.changes[c + i] == removal(tombstone)
                    &&& expects(
                        set,
                        tombstone.identity,
                        tombstone.table_key,
                        if tombstone.tombstone_version == 0 {
                            0
                        } else {
                            (tombstone.tombstone_version - 1) as u64
                        },
                    )
                }
        }),
{
    let none = ChangeSetModel::none();
    let registered = with_registrations(
        none,
        delta.registrations,
        delta.registrations.len() as int,
    );
    let renamed = with_renames(registered, delta.renames, delta.renames.len() as int);
    let filled = with_slots(renamed, delta.table_updates, delta.table_updates.len() as int);
    lemma_set_registrations(none, delta.registrations, delta.registrations.len() as int);
    lemma_set_renames(registered, delta.renames, delta.renames.len() as int);
    lemma_set_slots(renamed, delta.table_updates, delta.table_updates.len() as int);
    lemma_set_removals(filled, delta.tombstones, delta.tombstones.len() as int);
    let set = schema_changes(delta);
    assert forall|i: int| 0 <= i < delta.registrations.len() implies {
        let registration = #[trigger] delta.registrations[i];
        &&& set.changes[i] == registration_change(registration)
        &&& expects(set, registration.identity, registration.table_key, 0)
    } by {
        let registration = delta.registrations[i];
        assert(kept(registered, renamed, registration.identity));
        assert(renamed.expected.contains_key(registration.identity));
        assert(filled.expected.contains_key(registration.identity));
        assert(filled.expected[registration.identity] == renamed.expected[registration.identity]);
        assert(kept(filled, set, registration.identity));
        assert(renamed.changes[i] == registered.changes[i]);
        assert(filled.changes[i] == renamed.changes[i]);
        assert(set.changes[i] == filled.changes[i]);
    }
    assert forall|i: int| 0 <= i < delta.renames.len() implies {
        let rename = #[trigger] delta.renames[i];
        &&& set.changes[delta.registrations.len() + i] == rename_change(rename)
        &&& expects(set, rename.identity, rename.expected_table_key, rename.expected_version)
    } by {
        let rename = delta.renames[i];
        let k = delta.registrations.len() + i;
        assert(renamed.expected.contains_key(rename.identity));
        assert(filled.expected.contains_key(rename.identity));
        assert(filled.expected[rename.identity] == renamed.expected[rename.identity]);
        assert(kept(filled, set, rename.identity));
        assert(filled.changes[k] == renamed.changes[k]);
        assert(set.changes[k] == filled.changes[k]);
    }
    assert forall|i: int| 0 <= i < delta.table_updates.len() implies {
        let slot = #[trigger] delta.table_updates[i];
        &&& set.changes[delta.registrations.len() + delta.renames.len() + i] == as_confirmed(
            slot.identity,
            slot.table_key,
            slot.confirmed->0,
        )
        &&& !aliases_table(delta, slot.identity) ==> expects(
            set,
            slot.identity,
            slot.table_key,
            slot.expected_version,
        )
    } by {
        let slot = delta.table_updates[i];
        let k = delta.registrations.len() + delta.renames.len() + i;
        assert(kept(filled, set, slot.identity));
        assert(set.changes[k] == filled.changes[k]);
        if !aliases_table(delta, slot.identity) {
            assert(kept(none, registered, slot.identity));
            assert(kept(registered, renamed, slot.identity));
        }
    }
}

/// Whether two sets of changes expect the same of a table.
spec fn kept(before: ChangeSetModel, after: ChangeSetModel, identity: TableIdentity) -> bool {
    &&& before.expected.contains_key(identity) == after.expected.contains_key(identity)
    &&& before.expected[identity] == after.expected[identity]
}

proof fn lemma_set_registrations(
    set: ChangeSetModel,
    list: Seq<SidecarTableRegistrationModel>,
    n: int,
)
    requires
        0 <= n <= list.len(),
        registrations_apart(list),
    ensures
        ({
            let after = with_registrations(set, list, n);
            &&& after.changes.len() == set.changes.len() + n
            &&& forall|k: int|
                0 <= k < set.changes.len() ==> #[trigger] after.changes[k] == set.changes[k]
            &&& forall|i: int|
                0 <= i < n ==> {
                    &&& after.changes[set.changes.len() + i] == registration_change(
                        #[trigger] list[i],
                    )
                    &&& expects(after, list[i].identity, list[i].table_key, 0)
                }
            &&& forall|identity: TableIdentity|
                (forall|i: int| 0 <= i < n ==> (#[trigger] list[i]).identity != identity)
                    ==> #[trigger] kept(set, after, identity)
        }),
    decreases n,
{
    if n > 0 {
        lemma_set_registrations(set, list, n - 1);
        let before = with_registrations(set, list, n - 1);
        let after = with_registrations(set, list, n);
        assert forall|i: int| 0 <= i < n implies {
            &&& after.changes[set.changes.len() + i] == registration_change(#[trigger] list[i])
            &&& expects(after, list[i].identity, list[i].table_key, 0)
        } by {
            if i < n - 1 {
                assert(list[i].identity != list[n - 1].identity);
            }
        }
        assert forall|identity: TableIdentity|
            (forall|i: int| 0 <= i < n ==> (#[trigger] list[i]).identity
                != identity) implies #[trigger] kept(set, after, identity) by {
            assert(list[n - 1].identity != identity);
            assert(kept(set, before, identity));
        }
    }
}

proof fn lemma_set_renames(set: ChangeSetModel, list: Seq<SidecarTableRenameModel>, n: int)
    requires
        0 <= n <= list.len(),
        forall|i: int, j: int|
            0 <= i < j < list.len() ==> (#[trigger] list[i]).identity != (
            #[trigger] list[j]).identity,
    ensures
        ({
            let after = with_renames(set, list, n);
            &&& after.changes.len() == set.changes.len() + n
            &&& forall|k: int|
                0 <= k < set.changes.len() ==> #[trigger] after.changes[k] == set.changes[k]
            &&& forall|i: int|
                0 <= i < n ==> {
                    &&& after.changes[set.changes.len() + i] == rename_change(#[trigger] list[i])
                    &&& expects(
                        after,
                        list[i].identity,
                        list[i].expected_table_key,
                        list[i].expected_version,
                    )
                }
            &&& forall|identity: TableIdentity|
                (forall|i: int| 0 <= i < n ==> (#[trigger] list[i]).identity != identity)
                    ==> #[trigger] kept(set, after, identity)
        }),
    decreases n,
{
    if n > 0 {
        lemma_set_renames(set, list, n - 1);
        let before = with_renames(set, list, n - 1);
        let after = with_renames(set, list, n);
        assert forall|i: int| 0 <= i < n implies {
            &&& after.changes[set.changes.len() + i] == rename_change(#[trigger] list[i])
            &&& expects(
                after,
                list[i].identity,
                list[i].expected_table_key,
                list[i].expected_version,
            )
        } by {
            if i < n - 1 {
                assert(list[i].identity != list[n - 1].identity);
            }
        }
        assert forall|identity: TableIdentity|
            (forall|i: int| 0 <= i < n ==> (#[trigger] list[i]).identity
                != identity) implies #[trigger] kept(set, after, identity) by {
            assert(list[n - 1].identity != identity);
            assert(kept(set, before, identity));
        }
    }
}

proof fn lemma_set_slots(set: ChangeSetModel, list: Seq<RecoveryTableUpdateSlotModel>, n: int)
    requires
        0 <= n <= list.len(),
        forall|i: int, j: int|
            0 <= i < j < list.len() ==> (#[trigger] list[i]).identity != (
            #[trigger] list[j]).identity,
    ensures
        ({
            let after = with_slots(set, list, n);
            &&& after.changes.len() == set.changes.len() + n
            &&& forall|k: int|
                0 <= k < set.changes.len() ==> #[trigger] after.changes[k] == set.changes[k]
            &&& forall|i: int|
                0 <= i < n ==> {
                    &&& after.changes[set.changes.len() + i] == as_confirmed(
                        (#[trigger] list[i]).identity,
                        list[i].table_key,
                        list[i].confirmed->0,
                    )
                    &&& !set.expected.contains_key(list[i].identity) ==> expects(
                        after,
                        list[i].identity,
                        list[i].table_key,
                        list[i].expected_version,
                    )
                }
            &&& forall|identity: TableIdentity|
                set.expected.contains_key(identity) ==> #[trigger] after.expected.contains_key(
                    identity,
                ) && after.expected[identity] == set.expected[identity]
            &&& forall|identity: TableIdentity|
                (forall|i: int| 0 <= i < n ==> (#[trigger] list[i]).identity != identity)
                    ==> #[trigger] kept(set, after, identity)
        }),
    decreases n,
{
    if n > 0 {
        lemma_set_slots(set, list, n - 1);
        let before = with_slots(set, list, n - 1);
        let after = with_slots(set, list, n);
        assert forall|i: int| 0 <= i < n implies {
            &&& after.changes[set.changes.len() + i] == as_confirmed(
                (#[trigger] list[i]).identity,
                list[i].table_key,
                list[i].confirmed->0,
            )
            &&& !set.expected.contains_key(list[i].identity) ==> expects(
                after,
                list[i].identity,
                list[i].table_key,
                list[i].expected_version,
            )
        } by {
            if i < n - 1 {
                assert(list[i].identity != list[n - 1].identity);
            } else {
                assert(kept(set, before, list[n - 1].identity));
            }
        }
        assert forall|identity: TableIdentity|
            set.expected.contains_key(identity) implies #[trigger] after.expected.contains_key(
            identity,
        ) && after.expected[identity] == set.expected[identity] by {
            assert(before.expected.contains_key(identity));
        }
        assert forall|identity: TableIdentity|
            (forall|i: int| 0 <= i < n ==> (#[trigger] list[i]).identity
                != identity) implies #[trigger] kept(set, after, identity) by {
            assert(list[n - 1].identity != identity);
            assert(kept(set, before, identity));
        }
    }
}

proof fn lemma_set_removals(set: ChangeSetModel, list: Seq<SidecarTombstoneModel>, n: int)
    requires
        0 <= n <= list.len(),
        removals_apart(list),
    ensures
        ({
            let after = with_tombstones(set, list, n);
            &&& after.changes.len() == set.changes.len() + n
            &&& forall|k: int|
                0 <= k < set.changes.len() ==> #[trigger] after.changes[k] == set.changes[k]
            &&& forall|i: int|
                0 <= i < n ==> {
                    &&& after.changes[set.changes.len() + i] == removal(#[trigger] list[i])
                    &&& expects(
                        after,
                        list[i].identity,
                        list[i].table_key,
                        if list[i].tombstone_version == 0 {
                            0
                        } else {
                            (list[i].tombstone_version - 1) as u64
                        },
                    )
                }
            &&& forall|identity: TableIdentity|
                (forall|i: int| 0 <= i < n ==> (#[trigger] list[i]).identity != identity)
                    ==> #[trigger] kept(set, after, identity)
        }),
    decreases n,
{
    if n > 0 {
        lemma_set_removals(set, list, n - 1);
        let before = with_tombstones(set, list, n - 1);
        let after = with_tombstones(set, list, n);
        assert forall|i: int| 0 <= i < n implies {
            &&& after.changes[set.changes.len() + i] == removal(#[trigger] list[i])
            &&& expects(
                after,
                list[i].identity,
                list[i].table_key,
                if list[i].tombstone_version == 0 {
                    0
                } else {
                    (list[i].tombstone_version - 1) as u64
                },
            )
        } by {
            if i < n - 1 {
                assert(list[i].identity != list[n - 1].identity);
            }
        }
        assert forall|identity: TableIdentity|
            (forall|i: int| 0 <= i < n ==> (#[trigger] list[i]).identity
                != identity) implies #[trigger] kept(set, after, identity) by {
            assert(list[n - 1].identity != identity);
            assert(kept(set, before, identity));
        }
    }
}

/// The delta of a branch merge, an ensure-indices run or a schema apply can be published
/// exactly where every slot of it was confirmed, and then all of it is, and recorded.
pub proof fn lemma_when_a_delta_is_published(
    writer: &str,
    sidecar: &RecoverySidecar,
    delta: &RecoveryManifestDelta,
    plain: Result<(ChangeSet, Vec<TableOutcome>), OmniError>,
    schema: Result<ChangeSet, OmniError>,
)
    requires
        call_ensures(roll_forward_confirmed_delta, (writer, sidecar, delta), plain),
        call_ensures(publish_schema_apply_v7_forward, (delta,), schema),
    ensures
        ({
            let slots = delta@.table_updates;
            let confirmed = forall|i: int|
                0 <= i < slots.len() ==> (#[trigger] slots[i]).confirmed is Some;
            &&& plain is Ok <==> confirmed
            &&& schema is Ok <==> confirmed
            &&& plain is Ok ==> plain->Ok_0.0@ == slot_changes(slots, slots.len() as int)
            &&& plain is Ok ==> views(plain->Ok_0.1@) == slot_outcomes(slots)
            &&& schema is Ok ==> schema->Ok_0@ == schema_changes(delta@)
            &&& plain is Err ==> is_internal(plain->Err_0@)
            &&& schema is Err ==> is_internal(schema->Err_0@)
        }),
{
    let slots = delta@.table_updates;
    let left = unconfirmed_slots(writer@, sidecar.operation_id@, slots);
    let right = unconfirmed_schema_slots(slots);
    lemma_reported_is_the_first(left);
    lemma_reported_is_the_first(right);
    assert forall|i: int| 0 <= i < slots.len() implies (left[i] is None <==> (
    #[trigger] slots[i]).confirmed is Some) && (right[i] is None <==> slots[i].confirmed
        is Some) by {}
    if first_defect(left) is None {
        assert forall|i: int| 0 <= i < slots.len() implies (
        #[trigger] slots[i]).confirmed is Some by {
            assert(left[i] is None);
        }
    }
    if first_defect(right) is None {
        assert forall|i: int| 0 <= i < slots.len() implies (
        #[trigger] slots[i]).confirmed is Some by {
            assert(right[i] is None);
        }
    }
    if first_defect(left) is Some {
        let i = choose|i: int|
            {
                &&& 0 <= i < left.len()
                &&& #[trigger] left[i] == first_defect(left)
                &&& forall|j: int| 0 <= j < i ==> (#[trigger] left[j]) is None
            };
        assert(slots[i].confirmed is None);
    }
    if first_defect(right) is Some {
        let i = choose|i: int|
            {
                &&& 0 <= i < right.len()
                &&& #[trigger] right[i] == first_defect(right)
                &&& forall|j: int| 0 <= j < i ==> (#[trigger] right[j]) is None
            };
        assert(slots[i].confirmed is None);
    }
}

} // verus!
