//! What the confirmations of all writers share.

use vstd::prelude::*;

use crate::error::{internal, OmniError, OmniErrorModel};
use crate::identity::{IdentityMap, TableIdentity};
use crate::lookup::{
    find_by_identity, identities, identities_distinct, identities_equal, place_of, same_elements,
    Identified,
};
use crate::publish::{SubTableUpdate, SubTableUpdateModel};
use crate::sidecar::{
    RecoveryConfirmedTableUpdate, RecoveryConfirmedTableUpdateModel, RecoverySidecar,
    RecoverySidecarModel, RecoveryTableUpdateSlot, RecoveryTableUpdateSlotModel, SidecarTablePin,
    SidecarTablePinModel, StagedTransactionIdentity, StagedTransactionIdentityModel,
};
use crate::text::cat4;
use crate::value::{replicate_opt, views, Replicate};

verus! {

/// Relates a result to the confirmed sidecar or the error that is due.
pub open spec fn confirms(
    result: Result<RecoverySidecar, OmniError>,
    expected: Result<RecoverySidecarModel, OmniErrorModel>,
) -> bool {
    match expected {
        Ok(sidecar) => result is Ok && result->Ok_0@ == sidecar,
        Err(error) => result is Err && result->Err_0@ == error,
    }
}

/// The achieved output of a table.
pub open spec fn update_of(updates: Seq<SubTableUpdateModel>, identity: TableIdentity) -> Option<
    SubTableUpdateModel,
> {
    find_by_identity::<SubTableUpdate>(updates, identity)
}

/// What a confirmed output slot records of an achieved output.
pub open spec fn achieved(update: SubTableUpdateModel) -> RecoveryConfirmedTableUpdateModel {
    RecoveryConfirmedTableUpdateModel {
        table_version: update.table_version,
        table_branch: update.table_branch,
        row_count: update.row_count,
        version_metadata: update.version_metadata,
    }
}

/// The output slots with what was achieved.
pub open spec fn confirmed_slots(
    slots: Seq<RecoveryTableUpdateSlotModel>,
    updates: Seq<SubTableUpdateModel>,
) -> Seq<RecoveryTableUpdateSlotModel> {
    Seq::new(
        slots.len(),
        |i: int|
            match update_of(updates, slots[i].identity) {
                Some(update) => RecoveryTableUpdateSlotModel {
                    confirmed: Some(achieved(update)),
                    ..slots[i]
                },
                None => slots[i],
            },
    )
}

/// The pins with the versions that were achieved.
pub open spec fn confirmed_pins(
    pins: Seq<SidecarTablePinModel>,
    updates: Seq<SubTableUpdateModel>,
) -> Seq<SidecarTablePinModel> {
    Seq::new(
        pins.len(),
        |i: int|
            match update_of(updates, pins[i].identity) {
                Some(update) => SidecarTablePinModel {
                    confirmed_version: Some(update.table_version),
                    ..pins[i]
                },
                None => pins[i],
            },
    )
}

/// Whether the achieved outputs and the committed transactions are those of the
/// planned tables, one each.
pub open spec fn keys_match(
    planned: Seq<TableIdentity>,
    updates: Seq<SubTableUpdateModel>,
    committed: Map<TableIdentity, StagedTransactionIdentityModel>,
) -> bool {
    &&& identities::<SubTableUpdate>(updates).no_duplicates()
    &&& same_elements(identities::<SubTableUpdate>(updates), planned)
    &&& committed.dom().len() == updates.len()
    &&& forall|i: int| 0 <= i < planned.len() ==> committed.contains_key(#[trigger] planned[i])
}

/// Whether the achieved outputs and the committed transactions are those of the
/// planned tables, one each.
pub fn do_keys_match<E: Identified>(
    effects: &Vec<E>,
    updates: &Vec<SubTableUpdate>,
    committed: &IdentityMap<StagedTransactionIdentity>,
) -> (answer: bool)
    ensures
        answer == keys_match(identities::<E>(views(effects@)), views(updates@), committed@),
{
    let ghost ids = identities::<E>(views(effects@));
    if !identities_distinct(updates) || !identities_equal(updates, effects) || committed.len()
        != updates.len() {
        return false;
    }
    let mut i: usize = 0;
    while i < effects.len()
        invariant
            i <= effects.len(),
            ids == identities::<E>(views(effects@)),
            forall|j: int| 0 <= j < i ==> committed@.contains_key(#[trigger] ids[j]),
        decreases effects.len() - i,
    {
        let identity: TableIdentity = effects[i].identity();
        assert(ids[i as int] == identity);
        if committed.get(identity).is_none() {
            assert(!committed@.contains_key(ids[i as int]));
            return false;
        }
        i += 1;
    }
    true
}

/// Puts what was achieved into the output slots.
pub fn confirm_slots(
    slots: &Vec<RecoveryTableUpdateSlot>,
    updates: &Vec<SubTableUpdate>,
) -> (confirmed: Vec<RecoveryTableUpdateSlot>)
    ensures
        views(confirmed@) == confirmed_slots(views(slots@), views(updates@)),
{
    let ghost models = views(slots@);
    let ghost expected = confirmed_slots(models, views(updates@));
    let mut confirmed: Vec<RecoveryTableUpdateSlot> = Vec::new();
    let mut i: usize = 0;
    while i < slots.len()
        invariant
            i <= slots.len(),
            models == views(slots@),
            expected == confirmed_slots(models, views(updates@)),
            confirmed.len() == i,
            forall|j: int| 0 <= j < i ==> (#[trigger] confirmed@[j])@ == expected[j],
        decreases slots.len() - i,
    {
        assert(models[i as int] == slots@[i as int]@);
        let mut slot: RecoveryTableUpdateSlot = slots[i].replicate();
        if let Some(at) = place_of(updates, slots[i].identity) {
            slot.confirmed = Some(
                RecoveryConfirmedTableUpdate {
                    table_version: updates[at].table_version,
                    table_branch: replicate_opt(&updates[at].table_branch),
                    row_count: updates[at].row_count,
                    version_metadata: updates[at].version_metadata.replicate(),
                },
            );
        }
        confirmed.push(slot);
        i += 1;
    }
    assert(views(confirmed@) =~= expected);
    confirmed
}

/// Puts the versions that were achieved into the pins.
pub fn confirm_pins(pins: &Vec<SidecarTablePin>, updates: &Vec<SubTableUpdate>) -> (confirmed: Vec<
    SidecarTablePin,
>)
    ensures
        views(confirmed@) == confirmed_pins(views(pins@), views(updates@)),
{
    let ghost models = views(pins@);
    let ghost expected = confirmed_pins(models, views(updates@));
    let mut confirmed: Vec<SidecarTablePin> = Vec::new();
    let mut i: usize = 0;
    while i < pins.len()
        invariant
            i <= pins.len(),
            models == views(pins@),
            expected == confirmed_pins(models, views(updates@)),
            confirmed.len() == i,
            forall|j: int| 0 <= j < i ==> (#[trigger] confirmed@[j])@ == expected[j],
        decreases pins.len() - i,
    {
        assert(models[i as int] == pins@[i as int]@);
        let mut pin: SidecarTablePin = pins[i].replicate();
        if let Some(at) = place_of(updates, pins[i].identity) {
            pin.confirmed_version = Some(updates[at].table_version);
        }
        confirmed.push(pin);
        i += 1;
    }
    assert(views(confirmed@) =~= expected);
    confirmed
}

/// A message about one sidecar.
pub open spec fn about(writer: Seq<char>, operation_id: Seq<char>, rest: Seq<char>) -> OmniErrorModel {
    internal(writer + " sidecar '"@ + operation_id + rest)
}

/// An error about one sidecar.
pub fn error_about(writer: &str, operation_id: &str, rest: &str) -> (error: OmniError)
    ensures
        error@ == about(writer@, operation_id@, rest@),
{
    let message: String = cat4(writer, " sidecar '", operation_id, rest);
    OmniError::manifest_internal(message.as_str())
}

} // verus!
