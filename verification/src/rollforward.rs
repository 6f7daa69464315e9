//! Rolling forward: the changes that publish what an attempt reached, and the
//! outcomes that its audit row records.

use vstd::prelude::*;

use crate::classify::ClassifiedTable;
use crate::error::{internal, read_set_changed, OmniError, OmniErrorModel};
use crate::identity::{bad_alias, path_of, IdentityMap, TableIdentity};
use crate::lookup::{find_by_identity, identities, place_of};
use crate::publish::{
    push_table_update, with_table_update, ChangeSet, ChangeSetModel, ManifestChange,
    ManifestChangeModel, PublishedTable, PublishedTableModel, SubTableUpdate, SubTableUpdateModel,
    TableRegistration, TableRegistrationModel, TableRename, TableRenameModel, TableTombstone,
    TableTombstoneModel,
};
use crate::rollback::changes_result;
use crate::shape::defect::{first_defect, lemma_first_defect, lemma_no_defect};
use crate::sidecar::{
    RecoveryConfirmedTableUpdate, RecoveryManifestDelta, RecoveryManifestDeltaModel,
    RecoverySidecar, RecoverySidecarModel, RecoveryTableUpdateSlot, RecoveryTableUpdateSlotModel,
    SidecarTablePin, SidecarTablePinModel, SidecarTableRegistration, SidecarTableRegistrationModel,
    SidecarTableRename, SidecarTableRenameModel, SidecarTombstone, SidecarTombstoneModel,
    TableOutcome, TableOutcomeModel,
};
use crate::snapshot::{snapshot_entry_by_identity, Snapshot, SnapshotEntry, SnapshotModel};
use crate::text::{cat2, cat3, cat5, cat6, decimal, decimal_text};
use crate::value::{opt_view, replicate_opt, views, Replicate};

verus! {

/// The change that publishes a confirmed output slot, as the attempt prepared it.
pub open spec fn slot_change(slot: RecoveryTableUpdateSlotModel) -> ManifestChangeModel {
    let confirmed = slot.confirmed->0;
    ManifestChangeModel::Update(
        SubTableUpdateModel {
            identity: slot.identity,
            table_key: slot.table_key,
            table_version: confirmed.table_version,
            table_branch: confirmed.table_branch,
            row_count: confirmed.row_count,
            version_metadata: confirmed.version_metadata,
        },
    )
}

/// The outcome of publishing a confirmed output slot.
pub open spec fn slot_outcome(slot: RecoveryTableUpdateSlotModel) -> TableOutcomeModel {
    TableOutcomeModel {
        table_key: slot.table_key,
        from_version: slot.expected_version,
        to_version: slot.confirmed->0.table_version,
    }
}

/// The outcomes of publishing a list of confirmed output slots.
pub open spec fn slot_outcomes(slots: Seq<RecoveryTableUpdateSlotModel>) -> Seq<TableOutcomeModel> {
    Seq::new(slots.len(), |i: int| slot_outcome(slots[i]))
}

/// The changes that publish the first `n` slots, each on the condition that the
/// manifest still selects the version that the slot expects.
pub open spec fn slot_changes(slots: Seq<RecoveryTableUpdateSlotModel>, n: int) -> ChangeSetModel
    decreases n,
{
    if n <= 0 {
        ChangeSetModel::none()
    } else {
        slot_changes(slots, n - 1).expecting(
            slots[n - 1].identity,
            slots[n - 1].table_key,
            slots[n - 1].expected_version,
        ).with(slot_change(slots[n - 1]))
    }
}

/// The error for each slot that is not confirmed.
pub open spec fn unconfirmed_slots(
    writer: Seq<char>,
    operation_id: Seq<char>,
    slots: Seq<RecoveryTableUpdateSlotModel>,
) -> Seq<Option<OmniErrorModel>> {
    Seq::new(
        slots.len(),
        |i: int|
            if slots[i].confirmed is Some {
                None
            } else {
                Some(
                    internal(
                        writer + " recovery sidecar '"@ + operation_id + "' delta slot '"@
                            + slots[i].table_key + "' is not confirmed"@,
                    ),
                )
            },
    )
}

/// The change that publishes a confirmed output slot.
fn confirmed_change(
    slot: &RecoveryTableUpdateSlot,
    confirmed: &RecoveryConfirmedTableUpdate,
) -> (change: ManifestChange)
    requires
        slot.confirmed == Some(*confirmed),
    ensures
        change@ == slot_change(slot@),
{
    ManifestChange::Update(
        SubTableUpdate {
            identity: slot.identity,
            table_key: slot.table_key.clone(),
            table_version: confirmed.table_version,
            table_branch: replicate_opt(&confirmed.table_branch),
            row_count: confirmed.row_count,
            version_metadata: confirmed.version_metadata.replicate(),
        },
    )
}

/// The changes and outcomes of rolling forward the complete confirmed delta of a
/// branch merge or an ensure-indices run.
pub fn roll_forward_confirmed_delta(
    writer: &str,
    sidecar: &RecoverySidecar,
    delta: &RecoveryManifestDelta,
) -> (result: Result<(ChangeSet, Vec<TableOutcome>), OmniError>)
    ensures
        match first_defect(
            unconfirmed_slots(writer@, sidecar.operation_id@, delta@.table_updates),
        ) {
            Some(error) => result is Err && result->Err_0@ == error,
            None => {
                &&& result is Ok
                &&& result->Ok_0.0@ == slot_changes(
                    delta@.table_updates,
                    delta@.table_updates.len() as int,
                )
                &&& views(result->Ok_0.1@) == slot_outcomes(delta@.table_updates)
            },
        },
{
    let slots = &delta.table_updates;
    let ghost models = views(slots@);
    let ghost faults = unconfirmed_slots(writer@, sidecar.operation_id@, models);
    let mut set: ChangeSet = ChangeSet::new();
    let mut outcomes: Vec<TableOutcome> = Vec::new();
    let mut i: usize = 0;
    while i < slots.len()
        invariant
            i <= slots.len(),
            *slots == delta.table_updates,
            models == views(slots@),
            faults == unconfirmed_slots(writer@, sidecar.operation_id@, models),
            set@ == slot_changes(models, i as int),
            outcomes.len() == i,
            forall|j: int| 0 <= j < i ==> faults[j] is None,
            forall|j: int| 0 <= j < i ==> (#[trigger] outcomes@[j])@ == slot_outcome(models[j]),
        decreases slots.len() - i,
    {
        let slot: &RecoveryTableUpdateSlot = &slots[i];
        assert(models[i as int] == slot@);
        match &slot.confirmed {
            Some(confirmed) => {
                set.expect(slot.identity, &slot.table_key, slot.expected_version);
                set.push(confirmed_change(slot, confirmed));
                outcomes.push(
                    TableOutcome {
                        table_key: slot.table_key.clone(),
                        from_version: slot.expected_version,
                        to_version: confirmed.table_version,
                    },
                );
            },
            None => {
                let head: String = cat5(
                    writer,
                    " recovery sidecar '",
                    sidecar.operation_id.as_str(),
                    "' delta slot '",
                    slot.table_key.as_str(),
                );
                let message: String = cat2(head.as_str(), "' is not confirmed");
                proof {
                    lemma_first_defect(faults, i as int);
                }
                return Err(OmniError::manifest_internal(message.as_str()));
            },
        }
        i += 1;
    }
    proof {
        lemma_no_defect(faults);
        assert(views(outcomes@) =~= slot_outcomes(models));
    }
    Ok((set, outcomes))
}

/// A change set with the registration of a table, which must not exist yet.
pub open spec fn with_registration(
    set: ChangeSetModel,
    registration: SidecarTableRegistrationModel,
) -> ChangeSetModel {
    set.expecting(registration.identity, registration.table_key, 0).with(
        ManifestChangeModel::RegisterTable(
            TableRegistrationModel {
                identity: registration.identity,
                table_key: registration.table_key,
                table_path: registration.table_path,
            },
        ),
    )
}

/// A change set with a rename, on the condition that the table still has its old
/// alias and version.
pub open spec fn with_rename(
    set: ChangeSetModel,
    rename: SidecarTableRenameModel,
) -> ChangeSetModel {
    set.expecting(rename.identity, rename.expected_table_key, rename.expected_version).with(
        ManifestChangeModel::RenameTable(
            TableRenameModel {
                identity: rename.identity,
                expected_table_key: rename.expected_table_key,
                table_key: rename.table_key,
                table_path: rename.table_path,
            },
        ),
    )
}

/// The version before another, or zero.
pub open spec fn version_before(version: u64) -> u64 {
    if version == 0 {
        0
    } else {
        (version - 1) as u64
    }
}

/// A change set with a removal. The table has to be at the version before the
/// one that removes it.
pub open spec fn with_tombstone(
    set: ChangeSetModel,
    tombstone: SidecarTombstoneModel,
) -> ChangeSetModel {
    set.expecting(
        tombstone.identity,
        tombstone.table_key,
        version_before(tombstone.tombstone_version),
    ).with(
        ManifestChangeModel::Tombstone(
            TableTombstoneModel {
                identity: tombstone.identity,
                table_key: tombstone.table_key,
                tombstone_version: tombstone.tombstone_version,
            },
        ),
    )
}

/// A change set with the publish of a confirmed slot; what is expected of the
/// table already stays expected.
pub open spec fn with_slot(
    set: ChangeSetModel,
    slot: RecoveryTableUpdateSlotModel,
) -> ChangeSetModel {
    set.expecting_unless(slot.identity, slot.table_key, slot.expected_version).with(
        slot_change(slot),
    )
}

/// A change set with the first `n` registrations.
pub open spec fn with_registrations(
    set: ChangeSetModel,
    list: Seq<SidecarTableRegistrationModel>,
    n: int,
) -> ChangeSetModel
    decreases n,
{
    if n <= 0 {
        set
    } else {
        with_registration(with_registrations(set, list, n - 1), list[n - 1])
    }
}

/// A change set with the first `n` renames.
pub open spec fn with_renames(
    set: ChangeSetModel,
    list: Seq<SidecarTableRenameModel>,
    n: int,
) -> ChangeSetModel
    decreases n,
{
    if n <= 0 {
        set
    } else {
        with_rename(with_renames(set, list, n - 1), list[n - 1])
    }
}

/// A change set with the first `n` slots.
pub open spec fn with_slots(
    set: ChangeSetModel,
    list: Seq<RecoveryTableUpdateSlotModel>,
    n: int,
) -> ChangeSetModel
    decreases n,
{
    if n <= 0 {
        set
    } else {
        with_slot(with_slots(set, list, n - 1), list[n - 1])
    }
}

/// A change set with the first `n` removals.
pub open spec fn with_tombstones(
    set: ChangeSetModel,
    list: Seq<SidecarTombstoneModel>,
    n: int,
) -> ChangeSetModel
    decreases n,
{
    if n <= 0 {
        set
    } else {
        with_tombstone(with_tombstones(set, list, n - 1), list[n - 1])
    }
}

/// The changes that publish the complete delta of a schema apply.
pub open spec fn schema_changes(delta: RecoveryManifestDeltaModel) -> ChangeSetModel {
    with_tombstones(
        with_slots(
            with_renames(
                with_registrations(
                    ChangeSetModel::none(),
                    delta.registrations,
                    delta.registrations.len() as int,
                ),
                delta.renames,
                delta.renames.len() as int,
            ),
            delta.table_updates,
            delta.table_updates.len() as int,
        ),
        delta.tombstones,
        delta.tombstones.len() as int,
    )
}

/// The error for each slot of a schema apply that is not confirmed.
pub open spec fn unconfirmed_schema_slots(slots: Seq<RecoveryTableUpdateSlotModel>) -> Seq<
    Option<OmniErrorModel>,
> {
    Seq::new(
        slots.len(),
        |i: int|
            if slots[i].confirmed is Some {
                None
            } else {
                Some(
                    internal(
                        "SchemaApply recovery delta table '"@ + slots[i].table_key
                            + "' is not confirmed"@,
                    ),
                )
            },
    )
}

/// Adds the registration of a table that must not exist yet.
fn push_registration(set: &mut ChangeSet, registration: &SidecarTableRegistration)
    ensures
        final(set)@ == with_registration(old(set)@, registration@),
{
    set.expect(registration.identity, &registration.table_key, 0);
    set.push(
        ManifestChange::RegisterTable(
            TableRegistration {
                identity: registration.identity,
                table_key: registration.table_key.clone(),
                table_path: registration.table_path.clone(),
            },
        ),
    );
}

/// Adds a removal.
fn push_tombstone(set: &mut ChangeSet, tombstone: &SidecarTombstone)
    ensures
        final(set)@ == with_tombstone(old(set)@, tombstone@),
{
    let before: u64 = if tombstone.tombstone_version == 0 {
        0
    } else {
        tombstone.tombstone_version - 1
    };
    set.expect(tombstone.identity, &tombstone.table_key, before);
    set.push(
        ManifestChange::Tombstone(
            TableTombstone {
                identity: tombstone.identity,
                table_key: tombstone.table_key.clone(),
                tombstone_version: tombstone.tombstone_version,
            },
        ),
    );
}

/// The changes that publish the complete delta of a schema apply: registrations,
/// renames, new versions and removals, in this order.
pub fn publish_schema_apply_v7_forward(delta: &RecoveryManifestDelta) -> (result: Result<
    ChangeSet,
    OmniError,
>)
    ensures
        changes_result(
            result,
            match first_defect(unconfirmed_schema_slots(delta@.table_updates)) {
                Some(error) => Err(error),
                None => Ok(schema_changes(delta@)),
            },
        ),
{
    let mut set: ChangeSet = ChangeSet::new();
    let ghost none = ChangeSetModel::none();
    let mut i: usize = 0;
    while i < delta.registrations.len()
        invariant
            i <= delta.registrations.len(),
            set@ == with_registrations(none, delta@.registrations, i as int),
        decreases delta.registrations.len() - i,
    {
        assert(delta@.registrations[i as int] == delta.registrations@[i as int]@);
        push_registration(&mut set, &delta.registrations[i]);
        i += 1;
    }
    let ghost registered = set@;
    let mut k: usize = 0;
    while k < delta.renames.len()
        invariant
            k <= delta.renames.len(),
            set@ == with_renames(registered, delta@.renames, k as int),
        decreases delta.renames.len() - k,
    {
        let rename: &SidecarTableRename = &delta.renames[k];
        assert(delta@.renames[k as int] == rename@);
        set.expect(rename.identity, &rename.expected_table_key, rename.expected_version);
        set.push(
            ManifestChange::RenameTable(
                TableRename {
                    identity: rename.identity,
                    expected_table_key: rename.expected_table_key.clone(),
                    table_key: rename.table_key.clone(),
                    table_path: rename.table_path.clone(),
                },
            ),
        );
        k += 1;
    }
    let ghost renamed = set@;
    let ghost faults = unconfirmed_schema_slots(delta@.table_updates);
    let mut s: usize = 0;
    while s < delta.table_updates.len()
        invariant
            s <= delta.table_updates.len(),
            faults == unconfirmed_schema_slots(delta@.table_updates),
            forall|j: int| 0 <= j < s ==> faults[j] is None,
            set@ == with_slots(renamed, delta@.table_updates, s as int),
        decreases delta.table_updates.len() - s,
    {
        let slot: &RecoveryTableUpdateSlot = &delta.table_updates[s];
        assert(delta@.table_updates[s as int] == slot@);
        match &slot.confirmed {
            Some(confirmed) => {
                set.expect_unless(slot.identity, &slot.table_key, slot.expected_version);
                set.push(confirmed_change(slot, confirmed));
            },
            None => {
                let message: String = cat3(
                    "SchemaApply recovery delta table '",
                    slot.table_key.as_str(),
                    "' is not confirmed",
                );
                proof {
                    lemma_first_defect(faults, s as int);
                }
                return Err(OmniError::manifest_internal(message.as_str()));
            },
        }
        s += 1;
    }
    proof {
        lemma_no_defect(faults);
    }
    let ghost updated = set@;
    let mut t: usize = 0;
    while t < delta.tombstones.len()
        invariant
            t <= delta.tombstones.len(),
            set@ == with_tombstones(updated, delta@.tombstones, t as int),
        decreases delta.tombstones.len() - t,
    {
        assert(delta@.tombstones[t as int] == delta.tombstones@[t as int]@);
        push_tombstone(&mut set, &delta.tombstones[t]);
        t += 1;
    }
    Ok(set)
}

/// The outcomes of publishing the complete confirmed delta of a schema apply.
pub fn schema_apply_outcomes(delta: &RecoveryManifestDelta) -> (outcomes: Vec<TableOutcome>)
    requires
        forall|i: int|
            0 <= i < delta.table_updates@.len() ==> (#[trigger] delta.table_updates@[i]).confirmed
                is Some,
    ensures
        views(outcomes@) == slot_outcomes(delta@.table_updates),
{
    let mut outcomes: Vec<TableOutcome> = Vec::new();
    let mut i: usize = 0;
    while i < delta.table_updates.len()
        invariant
            i <= delta.table_updates.len(),
            outcomes.len() == i,
            forall|j: int|
                0 <= j < delta.table_updates@.len() ==> (#[trigger] delta.table_updates@[j]).confirmed
                    is Some,
            forall|j: int|
                0 <= j < i ==> (#[trigger] outcomes@[j])@ == slot_outcome(
                    delta@.table_updates[j],
                ),
        decreases delta.table_updates.len() - i,
    {
        let slot: &RecoveryTableUpdateSlot = &delta.table_updates[i];
        assert(delta@.table_updates[i as int] == slot@);
        if let Some(confirmed) = &slot.confirmed {
            outcomes.push(
                TableOutcome {
                    table_key: slot.table_key.clone(),
                    from_version: slot.expected_version,
                    to_version: confirmed.table_version,
                },
            );
        }
        i += 1;
    }
    assert(views(outcomes@) =~= slot_outcomes(delta@.table_updates));
    outcomes
}

/// What a roll-forward publishes: the changes, and the version of each table that
/// is visible afterwards.
#[derive(Debug)]
pub struct ForwardPlan {
    pub changes: ChangeSet,
    pub published_versions: IdentityMap<u64>,
}

/// What a [`ForwardPlan`] stands for.
#[verifier::ext_equal]
pub struct ForwardPlanModel {
    pub changes: ChangeSetModel,
    pub published_versions: Map<TableIdentity, u64>,
}

impl View for ForwardPlan {
    type V = ForwardPlanModel;

    open spec fn view(&self) -> ForwardPlanModel {
        ForwardPlanModel {
            changes: self.changes@,
            published_versions: self.published_versions@,
        }
    }
}

/// The plan with one more pinned table, or why it cannot be published. An exact
/// attempt publishes its confirmed slot, byte for byte; any other publishes the
/// table at the head that was classified.
pub open spec fn with_pin(
    plan: ForwardPlanModel,
    sidecar: RecoverySidecarModel,
    pin: SidecarTablePinModel,
    state: ClassifiedTable,
    table: Option<PublishedTableModel>,
) -> Result<ForwardPlanModel, OmniErrorModel> {
    match sidecar.protocol_v3 {
        Some(payload) => match find_by_identity::<RecoveryTableUpdateSlot>(
            payload.intended_delta.table_updates,
            pin.identity,
        ) {
            None => Err(
                internal("OCC recovery delta missing table '"@ + pin.table_key + "'"@),
            ),
            Some(slot) => match slot.confirmed {
                None => Err(
                    internal(
                        "OCC recovery delta table '"@ + pin.table_key + "' is not confirmed"@,
                    ),
                ),
                Some(confirmed) => if confirmed.table_version != state.lance_head {
                    Err(
                        internal(
                            "OCC recovery table '"@ + pin.table_key + "' observed HEAD "@ + decimal(
                                state.lance_head as nat,
                            ) + " but confirmed delta names "@ + decimal(
                                confirmed.table_version as nat,
                            ),
                        ),
                    )
                } else {
                    Ok(
                        ForwardPlanModel {
                            changes: plan.changes.expecting(
                                pin.identity,
                                pin.table_key,
                                slot.expected_version,
                            ).with(
                                ManifestChangeModel::Update(
                                    SubTableUpdateModel {
                                        identity: pin.identity,
                                        table_key: pin.table_key,
                                        table_version: confirmed.table_version,
                                        table_branch: confirmed.table_branch,
                                        row_count: confirmed.row_count,
                                        version_metadata: confirmed.version_metadata,
                                    },
                                ),
                            ),
                            published_versions: plan.published_versions.insert(
                                pin.identity,
                                confirmed.table_version,
                            ),
                        },
                    )
                },
            },
        },
        None => match path_of(pin.table_key, pin.identity) {
            None => Err(bad_alias(pin.table_key)),
            Some(_) => Ok(
                ForwardPlanModel {
                    changes: with_table_update(
                        plan.changes,
                        pin.identity,
                        pin.table_key,
                        pin.table_branch,
                        pin.expected_version,
                        table->0,
                    ),
                    published_versions: plan.published_versions.insert(
                        pin.identity,
                        table->0.table_version,
                    ),
                },
            ),
        },
    }
}

/// The plan with one more registration. One that the manifest has already is not
/// repeated; it must still have its alias.
pub open spec fn with_new_table(
    plan: ForwardPlanModel,
    snapshot: SnapshotModel,
    registration: SidecarTableRegistrationModel,
    table: Option<PublishedTableModel>,
) -> Result<ForwardPlanModel, OmniErrorModel> {
    match snapshot.by_identity(registration.identity) {
        Some(entry) => if entry.table.table_key != registration.table_key {
            Err(
                read_set_changed(
                    "table_binding:"@ + registration.identity.text(),
                    Some(registration.table_key),
                    Some(entry.table.table_key),
                ),
            )
        } else {
            Ok(
                ForwardPlanModel {
                    published_versions: plan.published_versions.insert(
                        registration.identity,
                        entry.table.table_version,
                    ),
                    ..plan
                },
            )
        },
        None => Ok(
            ForwardPlanModel {
                changes: plan.changes.with(
                    ManifestChangeModel::RegisterTable(
                        TableRegistrationModel {
                            identity: registration.identity,
                            table_key: registration.table_key,
                            table_path: registration.table_path,
                        },
                    ),
                ).with(
                    ManifestChangeModel::Update(
                        SubTableUpdateModel {
                            identity: registration.identity,
                            table_key: registration.table_key,
                            table_version: table->0.table_version,
                            table_branch: registration.table_branch,
                            row_count: table->0.row_count,
                            version_metadata: table->0.version_metadata,
                        },
                    ),
                ).expecting(registration.identity, registration.table_key, 0),
                published_versions: plan.published_versions.insert(
                    registration.identity,
                    table->0.table_version,
                ),
            },
        ),
    }
}

/// The plan with one more removal, unless the manifest has it already.
pub open spec fn with_removed_table(
    plan: ForwardPlanModel,
    snapshot: SnapshotModel,
    tombstone: SidecarTombstoneModel,
) -> ForwardPlanModel {
    if snapshot.by_identity(tombstone.identity) is Some {
        ForwardPlanModel { changes: with_tombstone(plan.changes, tombstone), ..plan }
    } else {
        plan
    }
}

/// What the store holds of each table that is to be published.
pub open spec fn table_views(tables: Seq<Option<PublishedTable>>) -> Seq<
    Option<PublishedTableModel>,
> {
    Seq::new(tables.len(), |i: int| opt_view(tables[i]))
}

/// The plan for the first `n` pinned tables.
pub open spec fn forward_pins(
    sidecar: RecoverySidecarModel,
    states: Seq<ClassifiedTable>,
    tables: Seq<Option<PublishedTableModel>>,
    n: int,
) -> Result<ForwardPlanModel, OmniErrorModel>
    decreases n,
{
    if n <= 0 {
        Ok(
            ForwardPlanModel {
                changes: ChangeSetModel::none(),
                published_versions: Map::empty(),
            },
        )
    } else {
        match forward_pins(sidecar, states, tables, n - 1) {
            Err(error) => Err(error),
            Ok(plan) => with_pin(
                plan,
                sidecar,
                sidecar.tables[n - 1],
                states[n - 1],
                tables[n - 1],
            ),
        }
    }
}

/// The plan with the first `n` registrations.
pub open spec fn forward_registrations(
    start: Result<ForwardPlanModel, OmniErrorModel>,
    snapshot: SnapshotModel,
    list: Seq<SidecarTableRegistrationModel>,
    tables: Seq<Option<PublishedTableModel>>,
    n: int,
) -> Result<ForwardPlanModel, OmniErrorModel>
    decreases n,
{
    if n <= 0 {
        start
    } else {
        match forward_registrations(start, snapshot, list, tables, n - 1) {
            Err(error) => Err(error),
            Ok(plan) => with_new_table(plan, snapshot, list[n - 1], tables[n - 1]),
        }
    }
}

/// The plan with the first `n` removals.
pub open spec fn forward_tombstones(
    plan: ForwardPlanModel,
    snapshot: SnapshotModel,
    list: Seq<SidecarTombstoneModel>,
    n: int,
) -> ForwardPlanModel
    decreases n,
{
    if n <= 0 {
        plan
    } else {
        with_removed_table(forward_tombstones(plan, snapshot, list, n - 1), snapshot, list[n - 1])
    }
}

/// The plan for a whole sidecar: its tables, then the tables that it registers,
/// then those that it removes.
pub open spec fn forward_plan(
    sidecar: RecoverySidecarModel,
    states: Seq<ClassifiedTable>,
    snapshot: SnapshotModel,
    pinned: Seq<Option<PublishedTableModel>>,
    registered: Seq<Option<PublishedTableModel>>,
) -> Result<ForwardPlanModel, OmniErrorModel> {
    match forward_registrations(
        forward_pins(sidecar, states, pinned, sidecar.tables.len() as int),
        snapshot,
        sidecar.additional_registrations,
        registered,
        sidecar.additional_registrations.len() as int,
    ) {
        Err(error) => Err(error),
        Ok(plan) => Ok(
            forward_tombstones(
                plan,
                snapshot,
                sidecar.tombstones,
                sidecar.tombstones.len() as int,
            ),
        ),
    }
}

proof fn lemma_forward_pins_error(
    sidecar: RecoverySidecarModel,
    states: Seq<ClassifiedTable>,
    tables: Seq<Option<PublishedTableModel>>,
    n: int,
    m: int,
)
    requires
        0 <= n <= m,
        forward_pins(sidecar, states, tables, n) is Err,
    ensures
        forward_pins(sidecar, states, tables, m) == forward_pins(sidecar, states, tables, n),
    decreases m - n,
{
    if n < m {
        lemma_forward_pins_error(sidecar, states, tables, n, m - 1);
    }
}

proof fn lemma_forward_registrations_error(
    start: Result<ForwardPlanModel, OmniErrorModel>,
    snapshot: SnapshotModel,
    list: Seq<SidecarTableRegistrationModel>,
    tables: Seq<Option<PublishedTableModel>>,
    n: int,
    m: int,
)
    requires
        0 <= n <= m,
        forward_registrations(start, snapshot, list, tables, n) is Err,
    ensures
        forward_registrations(start, snapshot, list, tables, m) == forward_registrations(
            start,
            snapshot,
            list,
            tables,
            n,
        ),
    decreases m - n,
{
    if n < m {
        lemma_forward_registrations_error(start, snapshot, list, tables, n, m - 1);
    }
}

/// Adds one pinned table to the plan.
fn push_pin(
    plan: &mut ForwardPlan,
    sidecar: &RecoverySidecar,
    pin: &SidecarTablePin,
    state: &ClassifiedTable,
    table: &Option<PublishedTable>,
) -> (result: Result<(), OmniError>)
    requires
        sidecar.protocol_v3 is None ==> table is Some,
    ensures
        match with_pin(old(plan)@, sidecar@, pin@, *state, opt_view(*table)) {
            Ok(next) => result is Ok && final(plan)@ == next,
            Err(error) => result is Err && result->Err_0@ == error,
        },
{
    let key: &str = pin.table_key.as_str();
    if let Some(payload) = &sidecar.protocol_v3 {
        let slot: &RecoveryTableUpdateSlot = match place_of(
            &payload.intended_delta.table_updates,
            pin.identity,
        ) {
            Some(i) => &payload.intended_delta.table_updates[i],
            None => {
                let message: String = cat3("OCC recovery delta missing table '", key, "'");
                return Err(OmniError::manifest_internal(message.as_str()));
            },
        };
        let confirmed = match &slot.confirmed {
            Some(confirmed) => confirmed,
            None => {
                let message: String = cat3(
                    "OCC recovery delta table '",
                    key,
                    "' is not confirmed",
                );
                return Err(OmniError::manifest_internal(message.as_str()));
            },
        };
        if confirmed.table_version != state.lance_head {
            let head: String = decimal_text(state.lance_head);
            let named: String = decimal_text(confirmed.table_version);
            let message: String = cat6(
                "OCC recovery table '",
                key,
                "' observed HEAD ",
                head.as_str(),
                " but confirmed delta names ",
                named.as_str(),
            );
            return Err(OmniError::manifest_internal(message.as_str()));
        }
        plan.changes.expect(pin.identity, &pin.table_key, slot.expected_version);
        plan.changes.push(
            ManifestChange::Update(
                SubTableUpdate {
                    identity: pin.identity,
                    table_key: pin.table_key.clone(),
                    table_version: confirmed.table_version,
                    table_branch: replicate_opt(&confirmed.table_branch),
                    row_count: confirmed.row_count,
                    version_metadata: confirmed.version_metadata.replicate(),
                },
            ),
        );
        plan.published_versions.set(pin.identity, confirmed.table_version);
        return Ok(());
    }
    if let Some(found) = table {
        match push_table_update(
            &mut plan.changes,
            pin.identity,
            &pin.table_key,
            &pin.table_branch,
            pin.expected_version,
            found,
        ) {
            Ok(version) => {
                plan.published_versions.set(pin.identity, version);
            },
            Err(error) => {
                return Err(error);
            },
        }
    }
    Ok(())
}

/// Adds one registration to the plan.
fn push_new_table(
    plan: &mut ForwardPlan,
    snapshot: &Snapshot,
    registration: &SidecarTableRegistration,
    table: &Option<PublishedTable>,
) -> (result: Result<(), OmniError>)
    requires
        snapshot@.by_identity(registration.identity) is None ==> table is Some,
    ensures
        match with_new_table(old(plan)@, snapshot@, registration@, opt_view(*table)) {
            Ok(next) => result is Ok && final(plan)@ == next,
            Err(error) => result is Err && result->Err_0@ == error,
        },
{
    if let Some(entry) = snapshot_entry_by_identity(snapshot, registration.identity) {
        if entry.table.table_key != registration.table_key {
            let identity: String = registration.identity.to_text();
            let member: String = cat2("table_binding:", identity.as_str());
            return Err(
                OmniError::manifest_read_set_changed(
                    member.as_str(),
                    Some(registration.table_key.clone()),
                    Some(entry.table.table_key.clone()),
                ),
            );
        }
        plan.published_versions.set(registration.identity, entry.table.table_version);
        return Ok(());
    }
    if let Some(found) = table {
        plan.changes.push(
            ManifestChange::RegisterTable(
                TableRegistration {
                    identity: registration.identity,
                    table_key: registration.table_key.clone(),
                    table_path: registration.table_path.clone(),
                },
            ),
        );
        plan.changes.push(
            ManifestChange::Update(
                SubTableUpdate {
                    identity: registration.identity,
                    table_key: registration.table_key.clone(),
                    table_version: found.table_version,
                    table_branch: replicate_opt(&registration.table_branch),
                    row_count: found.row_count,
                    version_metadata: found.version_metadata.replicate(),
                },
            ),
        );
        plan.changes.expect(registration.identity, &registration.table_key, 0);
        plan.published_versions.set(registration.identity, found.table_version);
    }
    Ok(())
}

/// Plans the roll-forward of a sidecar. `pinned` holds each pinned table at the
/// head that was classified, and is not looked at for an exact attempt;
/// `registered` holds each table to register that the manifest does not have yet.
pub fn roll_forward_all(
    sidecar: &RecoverySidecar,
    states: &Vec<ClassifiedTable>,
    snapshot: &Snapshot,
    pinned: &Vec<Option<PublishedTable>>,
    registered: &Vec<Option<PublishedTable>>,
) -> (result: Result<ForwardPlan, OmniError>)
    requires
        states.len() == sidecar.tables.len(),
        pinned.len() == sidecar.tables.len(),
        registered.len() == sidecar.additional_registrations.len(),
        sidecar.protocol_v3 is None ==> forall|i: int|
            0 <= i < pinned@.len() ==> (#[trigger] pinned@[i]) is Some,
        forall|i: int|
            0 <= i < registered@.len() && snapshot@.by_identity(
                sidecar.additional_registrations@[i].identity,
            ) is None ==> (#[trigger] registered@[i]) is Some,
    ensures
        match forward_plan(
            sidecar@,
            states@,
            snapshot@,
            table_views(pinned@),
            table_views(registered@),
        ) {
            Ok(plan) => result is Ok && result->Ok_0@ == plan,
            Err(error) => result is Err && result->Err_0@ == error,
        },
{
    let ghost pin_tables = table_views(pinned@);
    let ghost new_tables = table_views(registered@);
    let mut plan = ForwardPlan {
        changes: ChangeSet::new(),
        published_versions: IdentityMap::new(),
    };
    let mut i: usize = 0;
    while i < sidecar.tables.len()
        invariant
            i <= sidecar.tables.len(),
            states.len() == sidecar.tables.len(),
            pinned.len() == sidecar.tables.len(),
            pin_tables == table_views(pinned@),
            new_tables == table_views(registered@),
            sidecar.protocol_v3 is None ==> forall|j: int|
                0 <= j < pinned@.len() ==> (#[trigger] pinned@[j]) is Some,
            forward_pins(sidecar@, states@, pin_tables, i as int) == Ok::<
                ForwardPlanModel,
                OmniErrorModel,
            >(plan@),
        decreases sidecar.tables.len() - i,
    {
        assert(sidecar@.tables[i as int] == sidecar.tables@[i as int]@);
        assert(pin_tables[i as int] == opt_view(pinned@[i as int]));
        assert(sidecar.protocol_v3 is None ==> pinned@[i as int] is Some);
        if let Err(error) = push_pin(
            &mut plan,
            sidecar,
            &sidecar.tables[i],
            &states[i],
            &pinned[i],
        ) {
            proof {
                lemma_forward_pins_error(
                    sidecar@,
                    states@,
                    pin_tables,
                    i + 1,
                    sidecar.tables@.len() as int,
                );
                lemma_forward_registrations_error(
                    forward_pins(sidecar@, states@, pin_tables, sidecar.tables@.len() as int),
                    snapshot@,
                    sidecar@.additional_registrations,
                    new_tables,
                    0,
                    sidecar@.additional_registrations.len() as int,
                );
            }
            return Err(error);
        }
        i += 1;
    }
    let ghost start = forward_pins(sidecar@, states@, pin_tables, sidecar.tables@.len() as int);
    let list = &sidecar.additional_registrations;
    let mut k: usize = 0;
    while k < list.len()
        invariant
            k <= list.len(),
            *list == sidecar.additional_registrations,
            registered.len() == list.len(),
            new_tables == table_views(registered@),
            start == forward_pins(sidecar@, states@, pin_tables, sidecar.tables@.len() as int),
            pin_tables == table_views(pinned@),
            forall|j: int|
                0 <= j < registered@.len() && snapshot@.by_identity(
                    sidecar.additional_registrations@[j].identity,
                ) is None ==> (#[trigger] registered@[j]) is Some,
            forward_registrations(
                start,
                snapshot@,
                sidecar@.additional_registrations,
                new_tables,
                k as int,
            ) == Ok::<ForwardPlanModel, OmniErrorModel>(plan@),
        decreases list.len() - k,
    {
        assert(sidecar@.additional_registrations[k as int] == list@[k as int]@);
        assert(new_tables[k as int] == opt_view(registered@[k as int]));
        assert(snapshot@.by_identity(list@[k as int].identity) is None
            ==> registered@[k as int] is Some);
        if let Err(error) = push_new_table(&mut plan, snapshot, &list[k], &registered[k]) {
            proof {
                lemma_forward_registrations_error(
                    start,
                    snapshot@,
                    sidecar@.additional_registrations,
                    new_tables,
                    k + 1,
                    list@.len() as int,
                );
            }
            return Err(error);
        }
        k += 1;
    }
    let ghost before = plan@;
    let mut t: usize = 0;
    while t < sidecar.tombstones.len()
        invariant
            t <= sidecar.tombstones.len(),
            plan@ == forward_tombstones(before, snapshot@, sidecar@.tombstones, t as int),
        decreases sidecar.tombstones.len() - t,
    {
        let tombstone: &SidecarTombstone = &sidecar.tombstones[t];
        assert(sidecar@.tombstones[t as int] == tombstone@);
        if snapshot_entry_by_identity(snapshot, tombstone.identity).is_some() {
            push_tombstone(&mut plan.changes, tombstone);
        }
        t += 1;
    }
    Ok(plan)
}

/// The version that a map holds for a lifetime, or another.
pub open spec fn version_or(
    versions: Map<TableIdentity, u64>,
    identity: TableIdentity,
    otherwise: u64,
) -> u64 {
    if versions.contains_key(identity) {
        versions[identity]
    } else {
        otherwise
    }
}

/// The outcomes that the audit row of a roll-forward records: for each table the
/// version that was expected and the one that is visible.
pub open spec fn forward_outcomes(
    sidecar: RecoverySidecarModel,
    visible: Map<TableIdentity, u64>,
) -> Seq<TableOutcomeModel> {
    Seq::new(
        sidecar.tables.len(),
        |i: int|
            TableOutcomeModel {
                table_key: sidecar.tables[i].table_key,
                from_version: sidecar.tables[i].expected_version,
                to_version: version_or(
                    visible,
                    sidecar.tables[i].identity,
                    sidecar.tables[i].post_commit_pin,
                ),
            },
    ) + Seq::new(
        sidecar.additional_registrations.len(),
        |i: int|
            TableOutcomeModel {
                table_key: sidecar.additional_registrations[i].table_key,
                from_version: 0,
                to_version: version_or(visible, sidecar.additional_registrations[i].identity, 0),
            },
    )
}

/// The outcomes that the audit row of a roll-forward records.
pub fn roll_forward_outcomes(sidecar: &RecoverySidecar, visible: &IdentityMap<u64>) -> (outcomes:
    Vec<TableOutcome>)
    ensures
        views(outcomes@) == forward_outcomes(sidecar@, visible@),
{
    let ghost expected = forward_outcomes(sidecar@, visible@);
    let mut outcomes: Vec<TableOutcome> = Vec::new();
    let mut i: usize = 0;
    while i < sidecar.tables.len()
        invariant
            i <= sidecar.tables.len(),
            outcomes.len() == i,
            expected == forward_outcomes(sidecar@, visible@),
            forall|j: int| 0 <= j < i ==> (#[trigger] outcomes@[j])@ == expected[j],
        decreases sidecar.tables.len() - i,
    {
        let pin: &SidecarTablePin = &sidecar.tables[i];
        assert(sidecar@.tables[i as int] == pin@);
        let to_version: u64 = match visible.get(pin.identity) {
            Some(version) => *version,
            None => pin.post_commit_pin,
        };
        outcomes.push(
            TableOutcome {
                table_key: pin.table_key.clone(),
                from_version: pin.expected_version,
                to_version,
            },
        );
        i += 1;
    }
    let mut k: usize = 0;
    while k < sidecar.additional_registrations.len()
        invariant
            k <= sidecar.additional_registrations.len(),
            outcomes.len() == sidecar.tables.len() + k,
            expected == forward_outcomes(sidecar@, visible@),
            forall|j: int|
                0 <= j < outcomes.len() ==> (#[trigger] outcomes@[j])@ == expected[j],
        decreases sidecar.additional_registrations.len() - k,
    {
        let registration: &SidecarTableRegistration = &sidecar.additional_registrations[k];
        assert(sidecar@.additional_registrations[k as int] == registration@);
        let to_version: u64 = match visible.get(registration.identity) {
            Some(version) => *version,
            None => 0,
        };
        outcomes.push(
            TableOutcome {
                table_key: registration.table_key.clone(),
                from_version: 0,
                to_version,
            },
        );
        k += 1;
    }
    assert(views(outcomes@) =~= expected);
    outcomes
}

/// The versions that a snapshot selects.
pub open spec fn live_versions(snapshot: SnapshotModel) -> Map<TableIdentity, u64> {
    Map::new(
        |identity: TableIdentity| snapshot.by_identity(identity) is Some,
        |identity: TableIdentity| snapshot.by_identity(identity)->0.table.table_version,
    )
}

/// The versions that a snapshot selects.
pub fn collect_live_versions(snapshot: &Snapshot) -> (versions: IdentityMap<u64>)
    ensures
        versions@ == live_versions(snapshot@),
{
    let ghost ids = identities::<SnapshotEntry>(snapshot@.entries);
    let mut versions: IdentityMap<u64> = IdentityMap::new();
    let mut i: usize = 0;
    while i < snapshot.entries.len()
        invariant
            i <= snapshot.entries.len(),
            ids == identities::<SnapshotEntry>(snapshot@.entries),
            forall|identity: TableIdentity| #[trigger]
                versions@.contains_key(identity) <==> ids.subrange(0, i as int).contains(identity),
            forall|identity: TableIdentity| #[trigger]
                versions@.contains_key(identity) ==> snapshot@.by_identity(identity) is Some
                    && versions@[identity] == snapshot@.by_identity(
                    identity,
                )->0.table.table_version,
        decreases snapshot.entries.len() - i,
    {
        let entry: &SnapshotEntry = &snapshot.entries[i];
        assert(snapshot@.entries[i as int] == entry@);
        assert(ids[i as int] == entry.identity);
        assert(ids.subrange(0, i + 1) =~= ids.subrange(0, i as int).push(entry.identity));
        assert(ids.contains(entry.identity));
        let ghost before = versions@;
        if let Some(first) = snapshot_entry_by_identity(snapshot, entry.identity) {
            versions.set(entry.identity, first.table.table_version);
        }
        proof {
            assert forall|identity: TableIdentity| #[trigger]
                versions@.contains_key(identity) <==> ids.subrange(0, i + 1).contains(
                    identity,
                ) by {
                let shorter = ids.subrange(0, i as int);
                let longer = ids.subrange(0, i + 1);
                assert(before.contains_key(identity) <==> shorter.contains(identity));
                if shorter.contains(identity) {
                    let j = choose|j: int| 0 <= j < shorter.len() && shorter[j] == identity;
                    assert(longer[j] == identity);
                }
                if longer.contains(identity) && identity != entry.identity {
                    let j = choose|j: int| 0 <= j < longer.len() && longer[j] == identity;
                    assert(shorter[j] == identity);
                }
                if identity == entry.identity {
                    assert(longer[i as int] == identity);
                }
            }
        }
        i += 1;
    }
    assert(ids.subrange(0, snapshot.entries.len() as int) =~= ids);
    assert(versions@ =~= live_versions(snapshot@));
    versions
}

/// The outcomes that the audit row records of a roll-forward that an earlier pass
/// has published already.
pub open spec fn stale_outcomes(
    sidecar: RecoverySidecarModel,
    states: Seq<ClassifiedTable>,
    snapshot: SnapshotModel,
) -> Seq<TableOutcomeModel> {
    Seq::new(
        sidecar.tables.len(),
        |i: int|
            TableOutcomeModel {
                table_key: sidecar.tables[i].table_key,
                from_version: sidecar.tables[i].expected_version,
                to_version: states[i].manifest_pinned,
            },
    ) + Seq::new(
        sidecar.additional_registrations.len(),
        |i: int|
            TableOutcomeModel {
                table_key: sidecar.additional_registrations[i].table_key,
                from_version: 0,
                to_version: match snapshot.by_identity(
                    sidecar.additional_registrations[i].identity,
                ) {
                    Some(entry) => entry.table.table_version,
                    None => 0,
                },
            },
    )
}

/// The outcomes that the audit row records of a roll-forward that an earlier pass
/// has published already: nothing is published for it again but its lineage.
pub fn stale_roll_forward_outcomes(
    sidecar: &RecoverySidecar,
    states: &Vec<ClassifiedTable>,
    snapshot: &Snapshot,
) -> (outcomes: Vec<TableOutcome>)
    requires
        states.len() == sidecar.tables.len(),
    ensures
        views(outcomes@) == stale_outcomes(sidecar@, states@, snapshot@),
{
    let ghost expected = stale_outcomes(sidecar@, states@, snapshot@);
    let mut outcomes: Vec<TableOutcome> = Vec::new();
    let mut i: usize = 0;
    while i < sidecar.tables.len()
        invariant
            i <= sidecar.tables.len(),
            states.len() == sidecar.tables.len(),
            outcomes.len() == i,
            expected == stale_outcomes(sidecar@, states@, snapshot@),
            forall|j: int| 0 <= j < i ==> (#[trigger] outcomes@[j])@ == expected[j],
        decreases sidecar.tables.len() - i,
    {
        let pin: &SidecarTablePin = &sidecar.tables[i];
        assert(sidecar@.tables[i as int] == pin@);
        outcomes.push(
            TableOutcome {
                table_key: pin.table_key.clone(),
                from_version: pin.expected_version,
                to_version: states[i].manifest_pinned,
            },
        );
        i += 1;
    }
    let mut k: usize = 0;
    while k < sidecar.additional_registrations.len()
        invariant
            k <= sidecar.additional_registrations.len(),
            outcomes.len() == sidecar.tables.len() + k,
            expected == stale_outcomes(sidecar@, states@, snapshot@),
            forall|j: int|
                0 <= j < outcomes.len() ==> (#[trigger] outcomes@[j])@ == expected[j],
        decreases sidecar.additional_registrations.len() - k,
    {
        let registration: &SidecarTableRegistration = &sidecar.additional_registrations[k];
        assert(sidecar@.additional_registrations[k as int] == registration@);
        let to_version: u64 = match snapshot_entry_by_identity(snapshot, registration.identity) {
            Some(entry) => entry.table.table_version,
            None => 0,
        };
        outcomes.push(
            TableOutcome {
                table_key: registration.table_key.clone(),
                from_version: 0,
                to_version,
            },
        );
        k += 1;
    }
    assert(views(outcomes@) =~= expected);
    outcomes
}

/// Whether the manifest shows everything that a sidecar meant to publish: every
/// pinned table under its alias at the classified head or later, every
/// registration under its alias, and no removed table.
pub open spec fn intent_satisfied(
    snapshot: SnapshotModel,
    sidecar: RecoverySidecarModel,
    states: Seq<ClassifiedTable>,
) -> bool {
    &&& forall|i: int|
        0 <= i < sidecar.tables.len() ==> {
            let entry = snapshot.by_identity((#[trigger] sidecar.tables[i]).identity);
            &&& entry is Some
            &&& entry->0.table.table_key == sidecar.tables[i].table_key
            &&& entry->0.table.table_version >= states[i].lance_head
        }
    &&& forall|i: int|
        0 <= i < sidecar.additional_registrations.len() ==> {
            let entry = snapshot.by_identity(
                (#[trigger] sidecar.additional_registrations[i]).identity,
            );
            &&& entry is Some
            &&& entry->0.table.table_key == sidecar.additional_registrations[i].table_key
        }
    &&& forall|i: int|
        0 <= i < sidecar.tombstones.len() ==> snapshot.by_identity(
            (#[trigger] sidecar.tombstones[i]).identity,
        ) is None
}

/// Whether the manifest shows everything that a sidecar meant to publish.
pub fn sidecar_intent_satisfied(
    snapshot: &Snapshot,
    sidecar: &RecoverySidecar,
    states: &Vec<ClassifiedTable>,
) -> (answer: bool)
    requires
        states.len() == sidecar.tables.len(),
    ensures
        answer == intent_satisfied(snapshot@, sidecar@, states@),
{
    let ghost model = sidecar@;
    let mut i: usize = 0;
    while i < sidecar.tables.len()
        invariant
            i <= sidecar.tables.len(),
            states.len() == sidecar.tables.len(),
            model == sidecar@,
            forall|j: int|
                0 <= j < i ==> {
                    let entry = snapshot@.by_identity((#[trigger] model.tables[j]).identity);
                    &&& entry is Some
                    &&& entry->0.table.table_key == model.tables[j].table_key
                    &&& entry->0.table.table_version >= states@[j].lance_head
                },
        decreases sidecar.tables.len() - i,
    {
        let pin: &SidecarTablePin = &sidecar.tables[i];
        assert(model.tables[i as int] == pin@);
        match snapshot_entry_by_identity(snapshot, pin.identity) {
            Some(entry) => {
                if entry.table.table_key != pin.table_key || entry.table.table_version
                    < states[i].lance_head {
                    return false;
                }
            },
            None => {
                return false;
            },
        }
        i += 1;
    }
    let mut k: usize = 0;
    while k < sidecar.additional_registrations.len()
        invariant
            k <= sidecar.additional_registrations.len(),
            model == sidecar@,
            forall|j: int|
                0 <= j < k ==> {
                    let entry = snapshot@.by_identity(
                        (#[trigger] model.additional_registrations[j]).identity,
                    );
                    &&& entry is Some
                    &&& entry->0.table.table_key == model.additional_registrations[j].table_key
                },
        decreases sidecar.additional_registrations.len() - k,
    {
        let registration: &SidecarTableRegistration = &sidecar.additional_registrations[k];
        assert(model.additional_registrations[k as int] == registration@);
        match snapshot_entry_by_identity(snapshot, registration.identity) {
            Some(entry) => {
                if entry.table.table_key != registration.table_key {
                    return false;
                }
            },
            None => {
                return false;
            },
        }
        k += 1;
    }
    let mut t: usize = 0;
    while t < sidecar.tombstones.len()
        invariant
            t <= sidecar.tombstones.len(),
            model == sidecar@,
            forall|j: int|
                0 <= j < t ==> snapshot@.by_identity(
                    (#[trigger] model.tombstones[j]).identity,
                ) is None,
        decreases sidecar.tombstones.len() - t,
    {
        assert(model.tombstones[t as int] == sidecar.tombstones@[t as int]@);
        if snapshot_entry_by_identity(snapshot, sidecar.tombstones[t].identity).is_some() {
            return false;
        }
        t += 1;
    }
    true
}

/// What follows when the publish of a roll-forward lost to a concurrent writer.
#[derive(Clone, Copy, Debug, PartialEq, Eq, Structural)]
pub enum Convergence {
    /// The manifest is not at the goal yet: the sidecar stays for the next pass.
    Deferred,
    /// The winner reached the goal and removed the sidecar: nothing is left.
    AlreadyFinished,
    /// The winner reached the goal but not the end of its bookkeeping: the audit
    /// row and the deletion are left.
    FinishBookkeeping,
}

/// Decides what follows when the publish of a roll-forward lost to a concurrent
/// writer, given a fresh snapshot and whether the sidecar is still stored. The
/// goal is that the manifest shows the attempt, whoever published it.
pub fn converge_or_defer_roll_forward(
    fresh: &Snapshot,
    sidecar: &RecoverySidecar,
    states: &Vec<ClassifiedTable>,
    sidecar_exists: bool,
) -> (next: Convergence)
    requires
        states.len() == sidecar.tables.len(),
    ensures
        next == (if !intent_satisfied(fresh@, sidecar@, states@) {
            Convergence::Deferred
        } else if !sidecar_exists {
            Convergence::AlreadyFinished
        } else {
            Convergence::FinishBookkeeping
        }),
{
    if !sidecar_intent_satisfied(fresh, sidecar, states) {
        Convergence::Deferred
    } else if !sidecar_exists {
        Convergence::AlreadyFinished
    } else {
        Convergence::FinishBookkeeping
    }
}

/// The commit that the audit row of a convergence names: the newest one of the
/// recovery actor, or the head of the branch.
pub fn converged_commit_id(
    latest_recovery_commit: Option<String>,
    head_commit: Option<String>,
) -> (id: String)
    ensures
        id@ == (match latest_recovery_commit {
            Some(commit) => commit@,
            None => match head_commit {
                Some(commit) => commit@,
                None => Seq::empty(),
            },
        }),
{
    match latest_recovery_commit {
        Some(commit) => commit,
        None => match head_commit {
            Some(commit) => commit,
            None => String::new(),
        },
    }
}

} // verus!
