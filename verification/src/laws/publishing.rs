//! What is published is what recovery looks for afterwards.

use vstd::prelude::*;

use crate::classify::ClassifiedTable;
use crate::error::OmniErrorModel;
use crate::identity::TableIdentity;
use crate::laws::outcomes::selects;
use crate::lookup::{first_place, identities, lemma_has_first_place};
use crate::outcome::{delta_visible, registration_visible, rename_visible, slot_visible};
use crate::publish::{
    ChangeSetModel, ManifestChangeModel, PublishedTableModel, SubTableUpdateModel,
    TableRegistrationModel, TableRenameModel, TableTombstoneModel,
};
use crate::rollforward::{
    forward_pins, forward_plan, forward_registrations, forward_tombstones, intent_satisfied,
    schema_changes, slot_change, with_registrations, with_renames, with_slots, with_tombstones,
    ForwardPlanModel,
};
use crate::shape::defect::lemma_all_sound;
use crate::shape::schema_apply::{disjoint, first_touched, schema_apply_v7_fault, table_findings};
use crate::shape::validate::shape_fault;
use crate::sidecar::{
    RecoveryEffectPhase, RecoveryManifestDeltaModel, RecoverySchemaApplyEffect,
    RecoverySidecarModel, RecoveryTableUpdateSlot, RecoveryTableUpdateSlotModel, SidecarTablePin,
    SidecarTablePinModel, SidecarTableRegistration, SidecarTableRegistrationModel,
    SidecarTableRenameModel, SidecarTombstone, SidecarTombstoneModel,
};
use crate::snapshot::SnapshotModel;

verus! {

/// The table that a change is about.
pub open spec fn subject(change: ManifestChangeModel) -> TableIdentity {
    match change {
        ManifestChangeModel::Update(update) => update.identity,
        ManifestChangeModel::RegisterTable(table) => table.identity,
        ManifestChangeModel::RenameTable(rename) => rename.identity,
        ManifestChangeModel::Tombstone(tombstone) => tombstone.identity,
    }
}

/// Whether a manifest version shows a change.
pub open spec fn shows(snapshot: SnapshotModel, change: ManifestChangeModel) -> bool {
    match change {
        ManifestChangeModel::Update(update) => selects(snapshot, update),
        ManifestChangeModel::RegisterTable(table) => match snapshot.by_identity(table.identity) {
            Some(entry) => entry.table.table_key == table.table_key && entry.table.table_path
                == table.table_path,
            None => false,
        },
        ManifestChangeModel::RenameTable(rename) => match snapshot.by_identity(rename.identity) {
            Some(entry) => entry.table.table_key == rename.table_key && entry.table.table_path
                == rename.table_path,
            None => false,
        },
        ManifestChangeModel::Tombstone(tombstone) => snapshot.by_identity(tombstone.identity)
            is None,
    }
}

/// Whether `after` is a manifest version that shows some changes of `before`, and
/// nothing else.
pub open spec fn published(
    before: SnapshotModel,
    after: SnapshotModel,
    changes: Seq<ManifestChangeModel>,
) -> bool {
    &&& forall|k: int| 0 <= k < changes.len() ==> shows(after, #[trigger] changes[k])
    &&& forall|identity: TableIdentity|
        (forall|k: int| 0 <= k < changes.len() ==> subject(#[trigger] changes[k]) != identity)
            ==> #[trigger] after.by_identity(identity) == before.by_identity(identity)
}

/// The registration of a table, as a change.
pub open spec fn registering(registration: SidecarTableRegistrationModel) -> ManifestChangeModel {
    ManifestChangeModel::RegisterTable(
        TableRegistrationModel {
            identity: registration.identity,
            table_key: registration.table_key,
            table_path: registration.table_path,
        },
    )
}

/// A rename, as a change.
pub open spec fn renaming(rename: SidecarTableRenameModel) -> ManifestChangeModel {
    ManifestChangeModel::RenameTable(
        TableRenameModel {
            identity: rename.identity,
            expected_table_key: rename.expected_table_key,
            table_key: rename.table_key,
            table_path: rename.table_path,
        },
    )
}

/// A removal, as a change.
pub open spec fn removing(tombstone: SidecarTombstoneModel) -> ManifestChangeModel {
    ManifestChangeModel::Tombstone(
        TableTombstoneModel {
            identity: tombstone.identity,
            table_key: tombstone.table_key,
            tombstone_version: tombstone.tombstone_version,
        },
    )
}

/// Whether every change of one list is in another.
spec fn kept(shorter: Seq<ManifestChangeModel>, longer: Seq<ManifestChangeModel>) -> bool {
    forall|change: ManifestChangeModel| #[trigger]
        shorter.contains(change) ==> longer.contains(change)
}

/// One more change keeps the others and is there itself.
proof fn lemma_pushed(changes: Seq<ManifestChangeModel>, change: ManifestChangeModel)
    ensures
        kept(changes, changes.push(change)),
        changes.push(change).contains(change),
{
    let longer = changes.push(change);
    assert(longer[changes.len() as int] == change);
    assert forall|c: ManifestChangeModel| #[trigger] changes.contains(c) implies longer.contains(
        c,
    ) by {
        let k = choose|k: int| 0 <= k < changes.len() && changes[k] == c;
        assert(longer[k] == c);
    }
}

proof fn lemma_registrations_in(
    set: ChangeSetModel,
    list: Seq<SidecarTableRegistrationModel>,
    n: int,
)
    requires
        0 <= n <= list.len(),
    ensures
        kept(set.changes, with_registrations(set, list, n).changes),
        forall|i: int|
            0 <= i < n ==> with_registrations(set, list, n).changes.contains(
                registering(#[trigger] list[i]),
            ),
    decreases n,
{
    if n > 0 {
        lemma_registrations_in(set, list, n - 1);
        let before = with_registrations(set, list, n - 1).changes;
        assert(with_registrations(set, list, n).changes == before.push(registering(list[n - 1])));
        lemma_pushed(before, registering(list[n - 1]));
    }
}

proof fn lemma_renames_in(set: ChangeSetModel, list: Seq<SidecarTableRenameModel>, n: int)
    requires
        0 <= n <= list.len(),
    ensures
        kept(set.changes, with_renames(set, list, n).changes),
        forall|i: int|
            0 <= i < n ==> with_renames(set, list, n).changes.contains(
                renaming(#[trigger] list[i]),
            ),
    decreases n,
{
    if n > 0 {
        lemma_renames_in(set, list, n - 1);
        let before = with_renames(set, list, n - 1).changes;
        assert(with_renames(set, list, n).changes == before.push(renaming(list[n - 1])));
        lemma_pushed(before, renaming(list[n - 1]));
    }
}

proof fn lemma_slots_in(set: ChangeSetModel, list: Seq<RecoveryTableUpdateSlotModel>, n: int)
    requires
        0 <= n <= list.len(),
    ensures
        kept(set.changes, with_slots(set, list, n).changes),
        forall|i: int|
            0 <= i < n ==> with_slots(set, list, n).changes.contains(
                slot_change(#[trigger] list[i]),
            ),
    decreases n,
{
    if n > 0 {
        lemma_slots_in(set, list, n - 1);
        let before = with_slots(set, list, n - 1).changes;
        assert(with_slots(set, list, n).changes == before.push(slot_change(list[n - 1])));
        lemma_pushed(before, slot_change(list[n - 1]));
    }
}

proof fn lemma_tombstones_in(set: ChangeSetModel, list: Seq<SidecarTombstoneModel>, n: int)
    requires
        0 <= n <= list.len(),
    ensures
        kept(set.changes, with_tombstones(set, list, n).changes),
        forall|i: int|
            0 <= i < n ==> with_tombstones(set, list, n).changes.contains(
                removing(#[trigger] list[i]),
            ),
    decreases n,
{
    if n > 0 {
        lemma_tombstones_in(set, list, n - 1);
        let before = with_tombstones(set, list, n - 1).changes;
        assert(with_tombstones(set, list, n).changes == before.push(removing(list[n - 1])));
        lemma_pushed(before, removing(list[n - 1]));
    }
}

/// The changes of a schema apply hold every part of its delta.
proof fn lemma_delta_in_changes(delta: RecoveryManifestDeltaModel)
    ensures
        ({
            let changes = schema_changes(delta).changes;
            &&& forall|i: int|
                0 <= i < delta.registrations.len() ==> changes.contains(
                    registering(#[trigger] delta.registrations[i]),
                )
            &&& forall|i: int|
                0 <= i < delta.renames.len() ==> changes.contains(
                    renaming(#[trigger] delta.renames[i]),
                )
            &&& forall|i: int|
                0 <= i < delta.table_updates.len() ==> changes.contains(
                    slot_change(#[trigger] delta.table_updates[i]),
                )
            &&& forall|i: int|
                0 <= i < delta.tombstones.len() ==> changes.contains(
                    removing(#[trigger] delta.tombstones[i]),
                )
        }),
{
    let none = ChangeSetModel::none();
    let first = with_registrations(none, delta.registrations, delta.registrations.len() as int);
    let second = with_renames(first, delta.renames, delta.renames.len() as int);
    let third = with_slots(second, delta.table_updates, delta.table_updates.len() as int);
    lemma_registrations_in(none, delta.registrations, delta.registrations.len() as int);
    lemma_renames_in(first, delta.renames, delta.renames.len() as int);
    lemma_slots_in(second, delta.table_updates, delta.table_updates.len() as int);
    lemma_tombstones_in(third, delta.tombstones, delta.tombstones.len() as int);
    let changes = schema_changes(delta).changes;
    assert(kept(second.changes, changes));
    assert(kept(first.changes, changes));
}

/// In a sound, confirmed schema apply every slot is confirmed, on main.
proof fn lemma_schema_slots_confirmed(uri: Seq<char>, sidecar: RecoverySidecarModel, i: int)
    requires
        shape_fault(uri, sidecar) is None,
        sidecar.protocol_v7 matches Some(payload) && payload.effect_phase
            == RecoveryEffectPhase::EffectsConfirmed,
        0 <= i < (sidecar.protocol_v7->0).intended_delta.table_updates.len(),
    ensures
        (sidecar.protocol_v7->0).intended_delta.table_updates[i].confirmed matches Some(update)
            && update.table_branch is None,
{
    let payload = sidecar.protocol_v7->0;
    let slots = payload.intended_delta.table_updates;
    let slot_ids = identities::<RecoveryTableUpdateSlot>(slots);
    let pin_ids = identities::<SidecarTablePin>(sidecar.tables);
    assert(schema_apply_v7_fault(uri, sidecar) is None);
    assert(slot_ids[i] == slots[i].identity);
    assert(pin_ids.contains(slot_ids[i]));
    let k = choose|k: int| 0 <= k < pin_ids.len() && pin_ids[k] == slot_ids[i];
    assert(slot_ids.contains(slot_ids[i]));
    lemma_has_first_place(slot_ids, slot_ids[i]);
    assert(first_place(slot_ids, slot_ids[i]) == i);
    let findings = table_findings(payload, sidecar.tables);
    lemma_all_sound(findings, k);
    assert(findings[k] is None);
}

/// Once a manifest version shows every change that the roll-forward of a confirmed
/// schema apply publishes, a later pass sees the whole delta.
pub proof fn lemma_published_schema_delta_is_visible(
    uri: Seq<char>,
    sidecar: RecoverySidecarModel,
    snapshot: SnapshotModel,
)
    requires
        shape_fault(uri, sidecar) is None,
        sidecar.protocol_v7 matches Some(payload) && payload.effect_phase
            == RecoveryEffectPhase::EffectsConfirmed,
        ({
            let changes = schema_changes((sidecar.protocol_v7->0).intended_delta).changes;
            forall|k: int| 0 <= k < changes.len() ==> shows(snapshot, #[trigger] changes[k])
        }),
    ensures
        delta_visible(snapshot, (sidecar.protocol_v7->0).intended_delta, true),
{
    let payload = sidecar.protocol_v7->0;
    let delta = payload.intended_delta;
    let slots = delta.table_updates;
    let changes = schema_changes(delta).changes;
    lemma_delta_in_changes(delta);
    assert forall|change: ManifestChangeModel| changes.contains(change) implies #[trigger] shows(
        snapshot,
        change,
    ) by {
        let k = choose|k: int| 0 <= k < changes.len() && changes[k] == change;
        assert(shows(snapshot, changes[k]));
    }
    assert forall|i: int| 0 <= i < slots.len() implies slot_visible(
        snapshot,
        #[trigger] slots[i],
    ) by {
        lemma_schema_slots_confirmed(uri, sidecar, i);
        assert(shows(snapshot, slot_change(slots[i])));
    }
    assert forall|i: int| 0 <= i < delta.registrations.len() implies registration_visible(
        snapshot,
        #[trigger] delta.registrations[i],
    ) by {
        let registration = delta.registrations[i];
        let identity = registration.identity;
        assert(shows(snapshot, registering(registration)));
        let registered = identities::<SidecarTableRegistration>(delta.registrations);
        assert(registered[i] == identity);
        assert(first_touched(payload.effects, registered[i]));
        let e = choose|e: int|
            0 <= e < payload.effects.len() && (#[trigger] payload.effects[e]).identity == identity
                && payload.effects[e].kind is FirstTouchDataset;
        let effect_ids = identities::<RecoverySchemaApplyEffect>(payload.effects);
        assert(effect_ids[e] == identity);
        let pin_ids = identities::<SidecarTablePin>(sidecar.tables);
        assert(pin_ids.contains(identity));
        let p = choose|p: int| 0 <= p < pin_ids.len() && pin_ids[p] == identity;
        let slot_ids = identities::<RecoveryTableUpdateSlot>(slots);
        assert(slot_ids.contains(pin_ids[p]));
        let s = choose|s: int| 0 <= s < slot_ids.len() && slot_ids[s] == identity;
        assert(slots[s].identity == identity);
        lemma_schema_slots_confirmed(uri, sidecar, s);
        assert(slot_visible(snapshot, slots[s]));
        assert(registration.table_branch is None);
    }
    assert forall|i: int| 0 <= i < delta.renames.len() implies rename_visible(
        snapshot,
        #[trigger] delta.renames[i],
    ) by {
        assert(shows(snapshot, renaming(delta.renames[i])));
    }
    assert forall|i: int| 0 <= i < delta.tombstones.len() implies snapshot.by_identity(
        (#[trigger] delta.tombstones[i]).identity,
    ) is None by {
        assert(shows(snapshot, removing(delta.tombstones[i])));
    }
}

/// Whether an update publishes a pinned table at the head that was classified.
pub open spec fn publishes_pin(
    update: SubTableUpdateModel,
    pin: SidecarTablePinModel,
    state: ClassifiedTable,
) -> bool {
    &&& update.identity == pin.identity
    &&& update.table_key == pin.table_key
    &&& update.table_version == state.lance_head
}

/// Whether some change publishes a pinned table at the head that was classified.
spec fn pin_published(
    changes: Seq<ManifestChangeModel>,
    pin: SidecarTablePinModel,
    state: ClassifiedTable,
) -> bool {
    exists|update: SubTableUpdateModel|
        changes.contains(ManifestChangeModel::Update(update)) && #[trigger] publishes_pin(
            update,
            pin,
            state,
        )
}

/// Whether each table that was read for a publish was read at the head that was
/// classified.
pub open spec fn read_at_heads(
    sidecar: RecoverySidecarModel,
    states: Seq<ClassifiedTable>,
    pinned: Seq<Option<PublishedTableModel>>,
) -> bool {
    sidecar.protocol_v3 is None ==> forall|i: int|
        0 <= i < sidecar.tables.len() ==> (#[trigger] pinned[i]) is Some
            && pinned[i]->0.table_version == states[i].lance_head
}

/// The plan for the first `n` pinned tables publishes each of them, and nothing
/// about other tables.
proof fn lemma_pins_in_plan(
    sidecar: RecoverySidecarModel,
    states: Seq<ClassifiedTable>,
    pinned: Seq<Option<PublishedTableModel>>,
    n: int,
)
    requires
        0 <= n <= sidecar.tables.len(),
        forward_pins(sidecar, states, pinned, n) is Ok,
        read_at_heads(sidecar, states, pinned),
    ensures
        ({
            let changes = forward_pins(sidecar, states, pinned, n)->Ok_0.changes.changes;
            &&& forall|i: int|
                0 <= i < n ==> pin_published(changes, #[trigger] sidecar.tables[i], states[i])
            &&& forall|k: int|
                0 <= k < changes.len() ==> identities::<SidecarTablePin>(sidecar.tables).contains(
                    subject(#[trigger] changes[k]),
                )
        }),
    decreases n,
{
    if n > 0 {
        lemma_pins_in_plan(sidecar, states, pinned, n - 1);
        let before = forward_pins(sidecar, states, pinned, n - 1)->Ok_0.changes.changes;
        let changes = forward_pins(sidecar, states, pinned, n)->Ok_0.changes.changes;
        let pin = sidecar.tables[n - 1];
        let last = changes.last();
        assert(changes == before.push(last));
        lemma_pushed(before, last);
        assert(last is Update && publishes_pin(last->Update_0, pin, states[n - 1]));
        assert(last == ManifestChangeModel::Update(last->Update_0));
        assert(identities::<SidecarTablePin>(sidecar.tables)[n - 1] == pin.identity);
        assert forall|i: int| 0 <= i < n implies pin_published(
            changes,
            #[trigger] sidecar.tables[i],
            states[i],
        ) by {
            if i < n - 1 {
                assert(pin_published(before, sidecar.tables[i], states[i]));
                let update = choose|update: SubTableUpdateModel|
                    before.contains(ManifestChangeModel::Update(update))
                        && #[trigger] publishes_pin(update, sidecar.tables[i], states[i]);
                assert(before.contains(ManifestChangeModel::Update(update)));
                assert(changes.contains(ManifestChangeModel::Update(update)));
            } else {
                assert(publishes_pin(last->Update_0, sidecar.tables[i], states[i]));
            }
        }
        assert forall|k: int| 0 <= k < changes.len() implies identities::<SidecarTablePin>(
            sidecar.tables,
        ).contains(subject(#[trigger] changes[k])) by {
            if k < before.len() {
                assert(changes[k] == before[k]);
            }
        }
    } else {
        assert(forward_pins(sidecar, states, pinned, n)->Ok_0.changes.changes.len() == 0);
    }
}

/// Whether a table is to be registered and the manifest does not have it yet.
spec fn fresh_registration(
    before: SnapshotModel,
    list: Seq<SidecarTableRegistrationModel>,
    identity: TableIdentity,
) -> bool {
    identities::<SidecarTableRegistration>(list).contains(identity) && before.by_identity(identity)
        is None
}

/// Whether a table is to be removed and the manifest still has it.
spec fn pending_removal(
    before: SnapshotModel,
    list: Seq<SidecarTombstoneModel>,
    identity: TableIdentity,
) -> bool {
    identities::<SidecarTombstone>(list).contains(identity) && before.by_identity(identity) is Some
}

/// The plan with the first `n` registrations keeps what was planned, publishes each
/// table that the manifest does not have yet, and says nothing about other tables.
proof fn lemma_registrations_in_plan(
    start: Result<ForwardPlanModel, OmniErrorModel>,
    before: SnapshotModel,
    list: Seq<SidecarTableRegistrationModel>,
    registered: Seq<Option<PublishedTableModel>>,
    n: int,
)
    requires
        0 <= n <= list.len(),
        forward_registrations(start, before, list, registered, n) is Ok,
    ensures
        start is Ok,
        ({
            let changes = forward_registrations(
                start,
                before,
                list,
                registered,
                n,
            )->Ok_0.changes.changes;
            let planned = start->Ok_0.changes.changes;
            &&& kept(planned, changes)
            &&& forall|i: int|
                0 <= i < n ==> match before.by_identity((#[trigger] list[i]).identity) {
                    Some(entry) => entry.table.table_key == list[i].table_key,
                    None => changes.contains(registering(list[i])),
                }
            &&& forall|k: int|
                0 <= k < changes.len() ==> planned.contains(#[trigger] changes[k])
                    || fresh_registration(before, list, subject(changes[k]))
        }),
    decreases n,
{
    let changes = forward_registrations(start, before, list, registered, n)->Ok_0.changes.changes;
    if n > 0 {
        lemma_registrations_in_plan(start, before, list, registered, n - 1);
        let earlier = forward_registrations(
            start,
            before,
            list,
            registered,
            n - 1,
        )->Ok_0.changes.changes;
        let registration = list[n - 1];
        assert(identities::<SidecarTableRegistration>(list)[n - 1] == registration.identity);
        if before.by_identity(registration.identity) is None {
            let between = earlier.push(registering(registration));
            lemma_pushed(earlier, registering(registration));
            lemma_pushed(between, changes.last());
            assert(changes == between.push(changes.last()));
            assert forall|k: int| 0 <= k < changes.len() implies start->Ok_0.changes.changes.contains(
                #[trigger] changes[k],
            ) || fresh_registration(before, list, subject(changes[k])) by {
                if k < earlier.len() {
                    assert(changes[k] == earlier[k]);
                }
            }
        }
    }
}

/// The plan with the first `n` removals keeps what was planned, removes each table
/// that the manifest still has, and says nothing about other tables.
proof fn lemma_tombstones_in_plan(
    plan: ForwardPlanModel,
    before: SnapshotModel,
    list: Seq<SidecarTombstoneModel>,
    n: int,
)
    requires
        0 <= n <= list.len(),
    ensures
        ({
            let changes = forward_tombstones(plan, before, list, n).changes.changes;
            let planned = plan.changes.changes;
            &&& kept(planned, changes)
            &&& forall|i: int|
                0 <= i < n && before.by_identity((#[trigger] list[i]).identity) is Some
                    ==> changes.contains(removing(list[i]))
            &&& forall|k: int|
                0 <= k < changes.len() ==> planned.contains(#[trigger] changes[k])
                    || pending_removal(before, list, subject(changes[k]))
        }),
    decreases n,
{
    if n > 0 {
        lemma_tombstones_in_plan(plan, before, list, n - 1);
        let earlier = forward_tombstones(plan, before, list, n - 1).changes.changes;
        let changes = forward_tombstones(plan, before, list, n).changes.changes;
        assert(identities::<SidecarTombstone>(list)[n - 1] == list[n - 1].identity);
        if before.by_identity(list[n - 1].identity) is Some {
            assert(changes == earlier.push(removing(list[n - 1])));
            lemma_pushed(earlier, removing(list[n - 1]));
            assert forall|k: int| 0 <= k < changes.len() implies plan.changes.changes.contains(
                #[trigger] changes[k],
            ) || pending_removal(before, list, subject(changes[k])) by {
                if k < earlier.len() {
                    assert(changes[k] == earlier[k]);
                }
            }
        }
    }
}

/// Whether the tables that a sidecar pins, registers and removes are different ones.
pub open spec fn parts_apart(sidecar: RecoverySidecarModel) -> bool {
    let pinned = identities::<SidecarTablePin>(sidecar.tables);
    let registered = identities::<SidecarTableRegistration>(sidecar.additional_registrations);
    let removed = identities::<SidecarTombstone>(sidecar.tombstones);
    disjoint(registered, pinned) && disjoint(removed, pinned) && disjoint(removed, registered)
}

/// What a roll-forward publishes is what convergence looks for: once a manifest
/// version shows the planned changes and nothing else, the intent of the sidecar is
/// satisfied, so that a pass which lost the race to publish finds the goal reached.
pub proof fn lemma_forward_reaches_the_goal(
    sidecar: RecoverySidecarModel,
    states: Seq<ClassifiedTable>,
    before: SnapshotModel,
    after: SnapshotModel,
    pinned: Seq<Option<PublishedTableModel>>,
    registered: Seq<Option<PublishedTableModel>>,
)
    requires
        parts_apart(sidecar),
        read_at_heads(sidecar, states, pinned),
        forward_plan(sidecar, states, before, pinned, registered) is Ok,
        published(
            before,
            after,
            forward_plan(sidecar, states, before, pinned, registered)->Ok_0.changes.changes,
        ),
    ensures
        intent_satisfied(after, sidecar, states),
{
    let plan = forward_plan(sidecar, states, before, pinned, registered)->Ok_0;
    let changes = plan.changes.changes;
    let pins = sidecar.tables;
    let list = sidecar.additional_registrations;
    let removals = sidecar.tombstones;
    let first = forward_pins(sidecar, states, pinned, pins.len() as int);
    let second = forward_registrations(first, before, list, registered, list.len() as int);
    lemma_registrations_in_plan(first, before, list, registered, list.len() as int);
    lemma_pins_in_plan(sidecar, states, pinned, pins.len() as int);
    lemma_tombstones_in_plan(second->Ok_0, before, removals, removals.len() as int);
    let pin_changes = first->Ok_0.changes.changes;
    let more_changes = second->Ok_0.changes.changes;
    let pin_ids = identities::<SidecarTablePin>(pins);
    let new_ids = identities::<SidecarTableRegistration>(list);
    let old_ids = identities::<SidecarTombstone>(removals);
    assert forall|change: ManifestChangeModel| changes.contains(change) implies #[trigger] shows(
        after,
        change,
    ) by {
        let k = choose|k: int| 0 <= k < changes.len() && changes[k] == change;
        assert(shows(after, changes[k]));
    }
    assert forall|change: ManifestChangeModel| #[trigger]
        more_changes.contains(change) implies pin_ids.contains(subject(change))
        || fresh_registration(before, list, subject(change)) by {
        let k = choose|k: int| 0 <= k < more_changes.len() && more_changes[k] == change;
        if pin_changes.contains(more_changes[k]) {
            let m = choose|m: int| 0 <= m < pin_changes.len() && pin_changes[m] == change;
            assert(pin_ids.contains(subject(pin_changes[m])));
        }
    }
    assert forall|i: int| 0 <= i < pins.len() implies {
        let entry = after.by_identity((#[trigger] pins[i]).identity);
        &&& entry is Some
        &&& entry->0.table.table_key == pins[i].table_key
        &&& entry->0.table.table_version >= states[i].lance_head
    } by {
        assert(pin_published(pin_changes, pins[i], states[i]));
        let update = choose|update: SubTableUpdateModel|
            pin_changes.contains(ManifestChangeModel::Update(update)) && #[trigger] publishes_pin(
                update,
                pins[i],
                states[i],
            );
        assert(pin_changes.contains(ManifestChangeModel::Update(update)));
        assert(more_changes.contains(ManifestChangeModel::Update(update)));
        assert(changes.contains(ManifestChangeModel::Update(update)));
        assert(shows(after, ManifestChangeModel::Update(update)));
    }
    assert forall|i: int| 0 <= i < removals.len() implies after.by_identity(
        (#[trigger] removals[i]).identity,
    ) is None by {
        let identity = removals[i].identity;
        assert(old_ids[i] == identity);
        if before.by_identity(identity) is Some {
            assert(shows(after, removing(removals[i])));
        } else {
            assert forall|k: int| 0 <= k < changes.len() implies subject(#[trigger] changes[k])
                != identity by {
                if subject(changes[k]) == identity {
                    assert(more_changes.contains(changes[k]));
                }
            }
            assert(after.by_identity(identity) == before.by_identity(identity));
        }
    }
    assert forall|i: int| 0 <= i < list.len() implies {
        let entry = after.by_identity((#[trigger] list[i]).identity);
        &&& entry is Some
        &&& entry->0.table.table_key == list[i].table_key
    } by {
        let identity = list[i].identity;
        assert(new_ids[i] == identity);
        if before.by_identity(identity) is None {
            assert(more_changes.contains(registering(list[i])));
            assert(changes.contains(registering(list[i])));
            assert(shows(after, registering(list[i])));
        } else {
            assert forall|k: int| 0 <= k < changes.len() implies subject(#[trigger] changes[k])
                != identity by {
                if subject(changes[k]) == identity {
                    if pending_removal(before, removals, identity) {
                        let m = choose|m: int| 0 <= m < old_ids.len() && old_ids[m] == identity;
                        assert(!new_ids.contains(old_ids[m]));
                    }
                    assert(more_changes.contains(changes[k]));
                }
            }
            assert(after.by_identity(identity) == before.by_identity(identity));
        }
    }
}

} // verus!
