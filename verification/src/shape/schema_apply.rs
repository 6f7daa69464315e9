//! The shape of an exact schema-apply sidecar: one transaction and one output
//! slot for each rewritten or new table, and the registrations, renames and
//! tombstones of the table set.

use vstd::prelude::*;

use crate::error::{fails_as, OmniError, OmniErrorModel};
use crate::identity::{
    bad_alias, invalid_identity_text, path_of, table_path_for_identity, TableIdentity,
};
use crate::lookup::{
    aliases, aliases_distinct, find_by_identity, has_identity, identities, identities_distinct,
    identities_equal, place_of, planned_uuids, planned_uuids_distinct, planned_uuids_present,
    same_elements, uuids_present, within, Identified,
};
use crate::shape::defect::{
    authority_defect, first_defect, lemma_first_defect, lemma_no_defect, malformed, malformed_error,
    pins_defect, validate_authority_identity, validate_unique_pin_identities,
};
use crate::sidecar::{
    kind_text, RecoveryEffectPhase, RecoveryManifestDelta, RecoveryManifestDeltaModel,
    RecoveryProtocolV7, RecoveryProtocolV7Model, RecoverySchemaApplyEffect,
    RecoverySchemaApplyEffectModel, RecoverySidecar, RecoverySidecarModel, RecoveryTableUpdateSlot,
    RecoveryTableUpdateSlotModel, SidecarKind, SidecarTablePin, SidecarTablePinModel,
    SidecarTableRegistration, SidecarTableRegistrationModel, SidecarTableRename,
    SidecarTableRenameModel, SidecarTombstone, SidecarTombstoneModel, TableOutcome,
    TableOutcomeModel,
};
use crate::text::{cat2, cat3, cat5, cat7};
use crate::value::{opt_view, same_opt, views, Same};

verus! {

/// The alias that a table has again after a rollback: the one before its rename,
/// where it is renamed.
pub open spec fn restored_alias(
    renames: Seq<SidecarTableRenameModel>,
    pin: SidecarTablePinModel,
) -> Seq<char> {
    match find_by_identity::<SidecarTableRename>(renames, pin.identity) {
        Some(rename) => rename.expected_table_key,
        None => pin.table_key,
    }
}

/// The aliases that the pinned tables have again after a rollback.
pub open spec fn restored_aliases(
    renames: Seq<SidecarTableRenameModel>,
    pins: Seq<SidecarTablePinModel>,
) -> Seq<Seq<char>> {
    Seq::new(pins.len(), |i: int| restored_alias(renames, pins[i]))
}

/// The alias that a table has again after a rollback.
pub fn schema_apply_rollback_table_key<'a>(
    protocol: &'a RecoveryProtocolV7,
    pin: &'a SidecarTablePin,
) -> (alias: &'a String)
    ensures
        alias@ == restored_alias(protocol@.intended_delta.renames, pin@),
{
    match place_of(&protocol.intended_delta.renames, pin.identity) {
        Some(i) => &protocol.intended_delta.renames[i].expected_table_key,
        None => &pin.table_key,
    }
}

/// Whether the effects and the output slots belong to the pins one to one, and
/// no two effects share a transaction.
pub open spec fn one_to_one(
    protocol: RecoveryProtocolV7Model,
    pins: Seq<SidecarTablePinModel>,
) -> bool {
    let pin_ids = identities::<SidecarTablePin>(pins);
    let effect_ids = identities::<RecoverySchemaApplyEffect>(protocol.effects);
    let slot_ids = identities::<RecoveryTableUpdateSlot>(protocol.intended_delta.table_updates);
    &&& effect_ids.no_duplicates()
    &&& slot_ids.no_duplicates()
    &&& planned_uuids::<RecoverySchemaApplyEffect>(protocol.effects).no_duplicates()
    &&& uuids_present::<RecoverySchemaApplyEffect>(protocol.effects)
    &&& same_elements(pin_ids, effect_ids)
    &&& same_elements(pin_ids, slot_ids)
}

/// Whether some effect is the first commit of a lifetime.
pub open spec fn first_touched(
    effects: Seq<RecoverySchemaApplyEffectModel>,
    identity: TableIdentity,
) -> bool {
    exists|i: int|
        0 <= i < effects.len() && (#[trigger] effects[i]).identity == identity && effects[i].kind
            is FirstTouchDataset
}

/// Whether the lifetimes that get their first commit are exactly the registered
/// ones.
pub open spec fn registrations_match(protocol: RecoveryProtocolV7Model) -> bool {
    let registered = identities::<SidecarTableRegistration>(protocol.intended_delta.registrations);
    &&& forall|i: int|
        0 <= i < registered.len() ==> first_touched(protocol.effects, #[trigger] registered[i])
    &&& forall|i: int|
        0 <= i < protocol.effects.len() && (#[trigger] protocol.effects[i]).kind
            is FirstTouchDataset ==> registered.contains(protocol.effects[i].identity)
}

/// Whether two sequences have no element in common.
pub open spec fn disjoint<A>(left: Seq<A>, right: Seq<A>) -> bool {
    forall|i: int| 0 <= i < left.len() ==> !right.contains(#[trigger] left[i])
}

/// Whether registrations, renames and tombstones speak of different lifetimes,
/// each once, and the registered ones are those with a first commit.
pub open spec fn table_set_consistent(protocol: RecoveryProtocolV7Model) -> bool {
    let delta = protocol.intended_delta;
    let registered = identities::<SidecarTableRegistration>(delta.registrations);
    let removed = identities::<SidecarTombstone>(delta.tombstones);
    let renamed = identities::<SidecarTableRename>(delta.renames);
    &&& registered.no_duplicates()
    &&& removed.no_duplicates()
    &&& renamed.no_duplicates()
    &&& registrations_match(protocol)
    &&& disjoint(registered, removed)
    &&& disjoint(registered, renamed)
    &&& disjoint(removed, renamed)
}

/// What the sidecar is refused with before its delta is looked at in detail.
pub open spec fn envelope_defect(sidecar: RecoverySidecarModel) -> Option<Seq<char>> {
    if sidecar.writer_kind != SidecarKind::SchemaApply {
        Some("schema-v7 is reserved for SchemaApply, found "@ + kind_text(sidecar.writer_kind))
    } else if sidecar.branch is Some || sidecar.protocol_v3 is Some || sidecar.protocol_v4 is Some
        || sidecar.protocol_v8 is Some || sidecar.ensure_indices_rollback_v6 is Some
        || sidecar.merge_source_commit_id is Some || sidecar.additional_registrations.len() > 0
        || sidecar.tombstones.len() > 0 || sidecar.schema_apply_manifest_published
        || sidecar.schema_apply_target_schema_ir_hash is Some {
        Some(
            "schema-v7 SchemaApply must target main and carry authority/delta only in protocol_v7"@,
        )
    } else {
        match sidecar.protocol_v7 {
            None => Some("missing required protocol_v7 payload"@),
            Some(protocol) => {
                let lineage = protocol.lineage;
                if authority_defect(protocol.authority) is Some {
                    authority_defect(protocol.authority)
                } else if protocol.target_schema_ir_hash.len() == 0 {
                    Some("schema-v7 SchemaApply has an empty target schema identity"@)
                } else if sidecar.actor_id != lineage.actor_id || lineage.branch is Some
                    || lineage.merged_parent_commit_id is Some {
                    Some("schema-v7 sidecar actor/main lineage fields do not match"@)
                } else if lineage.graph_commit_id.len() == 0
                    || protocol.rollback_graph_commit_id.len() == 0
                    || protocol.rollback_graph_commit_id == lineage.graph_commit_id {
                    Some(
                        "schema-v7 original and rollback commit ids must be non-empty and distinct"@,
                    )
                } else if pins_defect(sidecar.tables, false) is Some {
                    pins_defect(sidecar.tables, false)
                } else if !one_to_one(protocol, sidecar.tables) {
                    Some(
                        "schema-v7 pins, effects, transaction UUIDs, and delta slots must be unique and one-to-one"@,
                    )
                } else if !table_set_consistent(protocol) {
                    Some(
                        "SchemaApply first-touch effects must match unique registration identities, while registrations, renames, and tombstones remain identity-disjoint"@,
                    )
                } else {
                    None
                }
            },
        }
    }
}

/// What one registration is refused with.
pub open spec fn registration_fault(
    uri: Seq<char>,
    version: u32,
    effects: Seq<RecoverySchemaApplyEffectModel>,
    registration: SidecarTableRegistrationModel,
) -> Option<OmniErrorModel> {
    let effect = find_by_identity::<RecoverySchemaApplyEffect>(effects, registration.identity)->0;
    if !registration.identity.valid() {
        Some(
            malformed(
                uri,
                version,
                "invalid registration identity: "@ + invalid_identity_text(),
            ),
        )
    } else {
        match path_of(registration.table_key, registration.identity) {
            None => Some(bad_alias(registration.table_key)),
            Some(path) => if registration.table_path != path {
                Some(
                    malformed(
                        uri,
                        version,
                        "registration identity "@ + registration.identity.text() + " alias '"@
                            + registration.table_key + "' has path '"@ + registration.table_path
                            + "', expected '"@ + path + "'"@,
                    ),
                )
            } else if effect.table_key != registration.table_key {
                Some(
                    malformed(
                        uri,
                        version,
                        "first-touch identity "@ + registration.identity.text()
                            + " has registration alias '"@ + registration.table_key
                            + "' but effect alias '"@ + effect.table_key + "'"@,
                    ),
                )
            } else {
                None
            },
        }
    }
}

/// What one rename is refused with.
pub open spec fn rename_fault(
    uri: Seq<char>,
    version: u32,
    slots: Seq<RecoveryTableUpdateSlotModel>,
    rename: SidecarTableRenameModel,
) -> Option<OmniErrorModel> {
    let before = path_of(rename.expected_table_key, rename.identity);
    let after = path_of(rename.table_key, rename.identity);
    let slot = find_by_identity::<RecoveryTableUpdateSlot>(slots, rename.identity);
    if !rename.identity.valid() {
        Some(malformed(uri, version, "invalid rename identity: "@ + invalid_identity_text()))
    } else if before is None {
        Some(bad_alias(rename.expected_table_key))
    } else if after is None {
        Some(bad_alias(rename.table_key))
    } else if rename.expected_version == 0 || rename.expected_table_key == rename.table_key || Some(
        rename.table_path,
    ) != before || Some(rename.table_path) != after {
        Some(
            malformed(
                uri,
                version,
                "rename identity "@ + rename.identity.text()
                    + " must carry a live expected version, change alias, and preserve canonical path '"@
                    + rename.table_path + "'"@,
            ),
        )
    } else if slot matches Some(output) && (output.table_key != rename.table_key
        || output.expected_version != rename.expected_version) {
        Some(
            malformed(
                uri,
                version,
                "rename identity "@ + rename.identity.text()
                    + " does not match its physical output alias/version"@,
            ),
        )
    } else {
        None
    }
}

/// The aliases that the delta gives to live tables, each with its table.
pub open spec fn live_bindings(delta: RecoveryManifestDeltaModel) -> Seq<
    (TableIdentity, Seq<char>),
> {
    Seq::new(
        delta.registrations.len(),
        |i: int| (delta.registrations[i].identity, delta.registrations[i].table_key),
    ) + Seq::new(
        delta.renames.len(),
        |i: int| (delta.renames[i].identity, delta.renames[i].table_key),
    )
}

/// Whether an alias is given before place `i`.
pub open spec fn given_before(
    bindings: Seq<(TableIdentity, Seq<char>)>,
    i: int,
    alias: Seq<char>,
) -> bool {
    exists|j: int| 0 <= j < i && (#[trigger] bindings[j]).1 == alias
}

/// What the binding at place `i` is refused with: its alias is given already.
pub open spec fn binding_defect(
    bindings: Seq<(TableIdentity, Seq<char>)>,
    i: int,
) -> Option<Seq<char>> {
    if given_before(bindings, i, bindings[i].1) {
        Some(
            "SchemaApply delta binds more than one live identity to alias '"@ + bindings[i].1
                + "' (including "@ + bindings[i].0.text() + ")"@,
        )
    } else {
        None
    }
}

/// What is found of every binding.
pub open spec fn binding_findings(bindings: Seq<(TableIdentity, Seq<char>)>) -> Seq<
    Option<Seq<char>>,
> {
    Seq::new(bindings.len(), |i: int| binding_defect(bindings, i))
}

/// Whether every tombstone has a valid identity.
pub open spec fn tombstones_valid(tombstones: Seq<SidecarTombstoneModel>) -> bool {
    forall|i: int| 0 <= i < tombstones.len() ==> (#[trigger] tombstones[i]).identity.valid()
}

/// Whether every registration is on main.
pub open spec fn registrations_on_main(registrations: Seq<SidecarTableRegistrationModel>) -> bool {
    forall|i: int|
        0 <= i < registrations.len() ==> (#[trigger] registrations[i]).table_branch is None
}

/// Whether a prepared rollback plan names restored tables, each once.
pub open spec fn restored_plan_sound(
    plan: Option<Seq<TableOutcomeModel>>,
    restored: Seq<Seq<char>>,
) -> bool {
    match plan {
        Some(outcomes) => {
            &&& aliases::<TableOutcome>(outcomes).no_duplicates()
            &&& within(aliases::<TableOutcome>(outcomes), restored)
        },
        None => true,
    }
}

/// What one pinned table is refused with.
pub open spec fn table_defect(
    phase: RecoveryEffectPhase,
    pin: SidecarTablePinModel,
    effect: RecoverySchemaApplyEffectModel,
    slot: RecoveryTableUpdateSlotModel,
) -> Option<Seq<char>> {
    let planned = effect.kind.planned();
    let next = if pin.expected_version == u64::MAX {
        pin.expected_version as int
    } else {
        pin.expected_version + 1
    };
    if pin.table_branch is Some {
        Some("schema-v7 table '"@ + pin.table_key + "' must target main"@)
    } else if effect.table_key != pin.table_key || slot.table_key != pin.table_key {
        Some(
            "SchemaApply identity "@ + pin.identity.text()
                + " has inconsistent diagnostic aliases"@,
        )
    } else if planned.read_version != pin.expected_version || pin.post_commit_pin != next
        || slot.expected_version != pin.expected_version || slot.table_branch is Some {
        Some("schema-v7 effect '"@ + pin.table_key + "' does not match its pin/delta pre-state"@)
    } else if (effect.kind is FirstTouchDataset) != (pin.expected_version == 0) {
        Some("schema-v7 effect '"@ + pin.table_key + "' has inconsistent first-touch identity"@)
    } else {
        match phase {
            RecoveryEffectPhase::Armed => if effect.kind.confirmed() is Some || slot.confirmed
                is Some || pin.confirmed_version is Some {
                Some("Armed schema-v7 effect '"@ + pin.table_key + "' already carries confirmation"@)
            } else {
                None
            },
            RecoveryEffectPhase::EffectsConfirmed => match (
                effect.kind.confirmed(),
                slot.confirmed,
            ) {
                (None, _) => Some(
                    "EffectsConfirmed schema-v7 effect '"@ + pin.table_key
                        + "' lacks transaction confirmation"@,
                ),
                (Some(_), None) => Some(
                    "EffectsConfirmed schema-v7 effect '"@ + pin.table_key
                        + "' lacks a manifest output"@,
                ),
                (Some(transaction), Some(update)) => if transaction != planned
                    || update.table_version != pin.post_commit_pin || update.table_branch is Some
                    || pin.confirmed_version != Some(update.table_version) {
                    Some(
                        "schema-v7 effect '"@ + pin.table_key
                            + "' confirmation differs from its exact plan"@,
                    )
                } else {
                    None
                },
            },
        }
    }
}

/// What is found of every pinned table.
pub open spec fn table_findings(
    protocol: RecoveryProtocolV7Model,
    pins: Seq<SidecarTablePinModel>,
) -> Seq<Option<Seq<char>>> {
    Seq::new(
        pins.len(),
        |i: int|
            table_defect(
                protocol.effect_phase,
                pins[i],
                find_by_identity::<RecoverySchemaApplyEffect>(
                    protocol.effects,
                    pins[i].identity,
                )->0,
                find_by_identity::<RecoveryTableUpdateSlot>(
                    protocol.intended_delta.table_updates,
                    pins[i].identity,
                )->0,
            ),
    )
}

/// What is found of every registration.
pub open spec fn registration_findings(
    uri: Seq<char>,
    version: u32,
    protocol: RecoveryProtocolV7Model,
) -> Seq<Option<OmniErrorModel>> {
    Seq::new(
        protocol.intended_delta.registrations.len(),
        |i: int|
            registration_fault(
                uri,
                version,
                protocol.effects,
                protocol.intended_delta.registrations[i],
            ),
    )
}

/// What is found of every rename.
pub open spec fn rename_findings(
    uri: Seq<char>,
    version: u32,
    protocol: RecoveryProtocolV7Model,
) -> Seq<Option<OmniErrorModel>> {
    Seq::new(
        protocol.intended_delta.renames.len(),
        |i: int|
            rename_fault(
                uri,
                version,
                protocol.intended_delta.table_updates,
                protocol.intended_delta.renames[i],
            ),
    )
}

/// What the sidecar is refused with once its registrations and renames are sound.
pub open spec fn delta_defect(
    protocol: RecoveryProtocolV7Model,
    pins: Seq<SidecarTablePinModel>,
) -> Option<Seq<char>> {
    let delta = protocol.intended_delta;
    if first_defect(binding_findings(live_bindings(delta))) is Some {
        first_defect(binding_findings(live_bindings(delta)))
    } else if !tombstones_valid(delta.tombstones) {
        Some("invalid tombstone identity: "@ + invalid_identity_text())
    } else if !registrations_on_main(delta.registrations) {
        Some("schema-v7 first-touch registrations must target main"@)
    } else if !restored_plan_sound(
        protocol.rollback_audit_outcomes,
        restored_aliases(delta.renames, pins),
    ) {
        Some(
            "schema-v7 rollback audit outcomes must name a unique subset of restored table aliases"@,
        )
    } else {
        first_defect(table_findings(protocol, pins))
    }
}

/// What an exact schema-apply sidecar is refused with: the first rule, in this
/// order, that it breaks.
pub open spec fn schema_apply_v7_fault(uri: Seq<char>, sidecar: RecoverySidecarModel) -> Option<
    OmniErrorModel,
> {
    let version = sidecar.schema_version;
    match envelope_defect(sidecar) {
        Some(reason) => Some(malformed(uri, version, reason)),
        None => {
            let protocol = sidecar.protocol_v7->0;
            let registrations = first_defect(registration_findings(uri, version, protocol));
            let renames = first_defect(rename_findings(uri, version, protocol));
            if registrations is Some {
                registrations
            } else if renames is Some {
                renames
            } else {
                match delta_defect(protocol, sidecar.tables) {
                    Some(reason) => Some(malformed(uri, version, reason)),
                    None => None,
                }
            }
        },
    }
}

/// Whether some effect is the first commit of a lifetime.
fn is_first_touched(effects: &Vec<RecoverySchemaApplyEffect>, identity: TableIdentity) -> (answer:
    bool)
    ensures
        answer == first_touched(views(effects@), identity),
{
    let ghost models = views(effects@);
    let mut i: usize = 0;
    while i < effects.len()
        invariant
            i <= effects.len(),
            models == views(effects@),
            forall|j: int|
                0 <= j < i ==> !((#[trigger] models[j]).identity == identity && models[j].kind
                    is FirstTouchDataset),
        decreases effects.len() - i,
    {
        assert(models[i as int] == effects@[i as int]@);
        if effects[i].identity == identity && effects[i].kind.is_first_touch() {
            return true;
        }
        i += 1;
    }
    false
}

/// Whether the lifetimes that get their first commit are exactly the registered
/// ones.
fn registrations_do_match(protocol: &RecoveryProtocolV7) -> (answer: bool)
    ensures
        answer == registrations_match(protocol@),
{
    let registrations = &protocol.intended_delta.registrations;
    let ghost registered = identities::<SidecarTableRegistration>(views(registrations@));
    let ghost models = views(protocol.effects@);
    let mut i: usize = 0;
    while i < registrations.len()
        invariant
            i <= registrations.len(),
            *registrations == protocol.intended_delta.registrations,
            registered == identities::<SidecarTableRegistration>(views(registrations@)),
            models == views(protocol.effects@),
            forall|j: int| 0 <= j < i ==> first_touched(models, #[trigger] registered[j]),
        decreases registrations.len() - i,
    {
        assert(registered[i as int] == registrations@[i as int].identity);
        if !is_first_touched(&protocol.effects, registrations[i].identity) {
            assert(protocol@.intended_delta.registrations == views(registrations@));
            assert(!first_touched(protocol@.effects, registered[i as int]));
            return false;
        }
        i += 1;
    }
    let mut k: usize = 0;
    while k < protocol.effects.len()
        invariant
            k <= protocol.effects.len(),
            *registrations == protocol.intended_delta.registrations,
            registered == identities::<SidecarTableRegistration>(views(registrations@)),
            models == views(protocol.effects@),
            forall|j: int|
                0 <= j < k && (#[trigger] models[j]).kind is FirstTouchDataset
                    ==> registered.contains(models[j].identity),
        decreases protocol.effects.len() - k,
    {
        assert(models[k as int] == protocol.effects@[k as int]@);
        if protocol.effects[k].kind.is_first_touch() && !has_identity(
            registrations,
            protocol.effects[k].identity,
        ) {
            return false;
        }
        k += 1;
    }
    true
}

/// Whether registrations, renames and tombstones speak of different lifetimes.
fn table_set_is_consistent(protocol: &RecoveryProtocolV7) -> (answer: bool)
    ensures
        answer == table_set_consistent(protocol@),
{
    let delta = &protocol.intended_delta;
    identities_distinct(&delta.registrations) && identities_distinct(&delta.tombstones)
        && identities_distinct(&delta.renames) && registrations_do_match(protocol)
        && identities_disjoint(&delta.registrations, &delta.tombstones) && identities_disjoint(
        &delta.registrations,
        &delta.renames,
    ) && identities_disjoint(&delta.tombstones, &delta.renames)
}

/// Whether two lists have no lifetime in common.
fn identities_disjoint<T: Identified, U: Identified>(left: &Vec<T>, right: &Vec<U>) -> (answer:
    bool)
    ensures
        answer == disjoint(identities::<T>(views(left@)), identities::<U>(views(right@))),
{
    let ghost ids = identities::<T>(views(left@));
    let ghost others = identities::<U>(views(right@));
    let mut i: usize = 0;
    while i < left.len()
        invariant
            i <= left.len(),
            ids == identities::<T>(views(left@)),
            others == identities::<U>(views(right@)),
            forall|j: int| 0 <= j < i ==> !others.contains(#[trigger] ids[j]),
        decreases left.len() - i,
    {
        assert(ids[i as int] == T::identity_of(left@[i as int]@));
        if has_identity(right, left[i].identity()) {
            return false;
        }
        i += 1;
    }
    true
}

/// Finds the first rule, short of the details of its delta, that the sidecar
/// breaks.
fn find_envelope_defect(sidecar: &RecoverySidecar) -> (defect: Option<String>)
    ensures
        opt_view(defect) == envelope_defect(sidecar@),
{
    if sidecar.writer_kind != SidecarKind::SchemaApply {
        return Some(
            cat2("schema-v7 is reserved for SchemaApply, found ", sidecar.writer_kind.name()),
        );
    }
    if sidecar.branch.is_some() || sidecar.protocol_v3.is_some() || sidecar.protocol_v4.is_some()
        || sidecar.protocol_v8.is_some() || sidecar.ensure_indices_rollback_v6.is_some()
        || sidecar.merge_source_commit_id.is_some() || !sidecar.additional_registrations.is_empty()
        || !sidecar.tombstones.is_empty() || sidecar.schema_apply_manifest_published
        || sidecar.schema_apply_target_schema_ir_hash.is_some() {
        return Some(
            "schema-v7 SchemaApply must target main and carry authority/delta only in protocol_v7".to_owned(),
        );
    }
    let protocol: &RecoveryProtocolV7 = match &sidecar.protocol_v7 {
        Some(protocol) => protocol,
        None => {
            return Some("missing required protocol_v7 payload".to_owned());
        },
    };
    let authority: Option<String> = validate_authority_identity(&protocol.authority);
    if authority.is_some() {
        return authority;
    }
    if protocol.target_schema_ir_hash.as_str().is_empty() {
        return Some("schema-v7 SchemaApply has an empty target schema identity".to_owned());
    }
    let lineage = &protocol.lineage;
    if !same_opt(&sidecar.actor_id, &lineage.actor_id) || lineage.branch.is_some()
        || lineage.merged_parent_commit_id.is_some() {
        return Some("schema-v7 sidecar actor/main lineage fields do not match".to_owned());
    }
    if lineage.graph_commit_id.as_str().is_empty()
        || protocol.rollback_graph_commit_id.as_str().is_empty()
        || protocol.rollback_graph_commit_id == lineage.graph_commit_id {
        return Some(
            "schema-v7 original and rollback commit ids must be non-empty and distinct".to_owned(),
        );
    }
    let pins: Option<String> = validate_unique_pin_identities(&sidecar.tables, false);
    if pins.is_some() {
        return pins;
    }
    let slots = &protocol.intended_delta.table_updates;
    if !identities_distinct(&protocol.effects) || !identities_distinct(slots)
        || !planned_uuids_distinct(&protocol.effects) || !planned_uuids_present(&protocol.effects)
        || !identities_equal(&sidecar.tables, &protocol.effects) || !identities_equal(
        &sidecar.tables,
        slots,
    ) {
        return Some(
            "schema-v7 pins, effects, transaction UUIDs, and delta slots must be unique and one-to-one".to_owned(),
        );
    }
    if !table_set_is_consistent(protocol) {
        return Some(
            "SchemaApply first-touch effects must match unique registration identities, while registrations, renames, and tombstones remain identity-disjoint".to_owned(),
        );
    }
    None
}

/// Refuses one registration.
fn check_registration(
    uri: &str,
    version: u32,
    effects: &Vec<RecoverySchemaApplyEffect>,
    registration: &SidecarTableRegistration,
) -> (fault: Option<OmniError>)
    requires
        identities::<RecoverySchemaApplyEffect>(views(effects@)).contains(registration.identity),
    ensures
        opt_view(fault) == registration_fault(uri@, version, views(effects@), registration@),
{
    if let Err(error) = registration.identity.validate() {
        let text: String = error.to_text();
        let reason: String = cat2("invalid registration identity: ", text.as_str());
        return Some(malformed_error(uri, version, reason.as_str()));
    }
    let path: String = match table_path_for_identity(
        registration.table_key.as_str(),
        registration.identity,
    ) {
        Ok(path) => path,
        Err(error) => {
            return Some(error);
        },
    };
    let key: &str = registration.table_key.as_str();
    if registration.table_path != path {
        let identity: String = registration.identity.to_text();
        let head: String = cat7(
            "registration identity ",
            identity.as_str(),
            " alias '",
            key,
            "' has path '",
            registration.table_path.as_str(),
            "', expected '",
        );
        let reason: String = cat3(head.as_str(), path.as_str(), "'");
        return Some(malformed_error(uri, version, reason.as_str()));
    }
    if let Some(e) = place_of(effects, registration.identity) {
        if effects[e].table_key != registration.table_key {
            let identity: String = registration.identity.to_text();
            let reason: String = cat7(
                "first-touch identity ",
                identity.as_str(),
                " has registration alias '",
                key,
                "' but effect alias '",
                effects[e].table_key.as_str(),
                "'",
            );
            return Some(malformed_error(uri, version, reason.as_str()));
        }
    }
    None
}

/// Refuses one rename.
fn check_rename(
    uri: &str,
    version: u32,
    slots: &Vec<RecoveryTableUpdateSlot>,
    rename: &SidecarTableRename,
) -> (fault: Option<OmniError>)
    ensures
        opt_view(fault) == rename_fault(uri@, version, views(slots@), rename@),
{
    if let Err(error) = rename.identity.validate() {
        let text: String = error.to_text();
        let reason: String = cat2("invalid rename identity: ", text.as_str());
        return Some(malformed_error(uri, version, reason.as_str()));
    }
    let before: String = match table_path_for_identity(
        rename.expected_table_key.as_str(),
        rename.identity,
    ) {
        Ok(path) => path,
        Err(error) => {
            return Some(error);
        },
    };
    let after: String = match table_path_for_identity(rename.table_key.as_str(), rename.identity) {
        Ok(path) => path,
        Err(error) => {
            return Some(error);
        },
    };
    if rename.expected_version == 0 || rename.expected_table_key == rename.table_key
        || rename.table_path != before || rename.table_path != after {
        let identity: String = rename.identity.to_text();
        let reason: String = cat5(
            "rename identity ",
            identity.as_str(),
            " must carry a live expected version, change alias, and preserve canonical path '",
            rename.table_path.as_str(),
            "'",
        );
        return Some(malformed_error(uri, version, reason.as_str()));
    }
    if let Some(s) = place_of(slots, rename.identity) {
        if slots[s].table_key != rename.table_key || slots[s].expected_version
            != rename.expected_version {
            let identity: String = rename.identity.to_text();
            let reason: String = cat3(
                "rename identity ",
                identity.as_str(),
                " does not match its physical output alias/version",
            );
            return Some(malformed_error(uri, version, reason.as_str()));
        }
    }
    None
}

/// Refuses the first registration that breaks a rule.
fn check_registrations(uri: &str, version: u32, protocol: &RecoveryProtocolV7) -> (fault: Option<
    OmniError,
>)
    requires
        registrations_match(protocol@),
    ensures
        opt_view(fault) == first_defect(registration_findings(uri@, version, protocol@)),
{
    let registrations = &protocol.intended_delta.registrations;
    let ghost findings = registration_findings(uri@, version, protocol@);
    let mut i: usize = 0;
    while i < registrations.len()
        invariant
            i <= registrations.len(),
            *registrations == protocol.intended_delta.registrations,
            registrations_match(protocol@),
            findings == registration_findings(uri@, version, protocol@),
            forall|j: int| 0 <= j < i ==> findings[j] is None,
        decreases registrations.len() - i,
    {
        proof {
            let registered = identities::<SidecarTableRegistration>(views(registrations@));
            let effects = views(protocol.effects@);
            assert(registered[i as int] == registrations@[i as int].identity);
            assert(first_touched(effects, registered[i as int]));
            let e = choose|e: int|
                0 <= e < effects.len() && (#[trigger] effects[e]).identity
                    == registered[i as int] && effects[e].kind is FirstTouchDataset;
            assert(identities::<RecoverySchemaApplyEffect>(effects)[e] == registered[i as int]);
        }
        let fault: Option<OmniError> = check_registration(
            uri,
            version,
            &protocol.effects,
            &registrations[i],
        );
        assert(opt_view(fault) == findings[i as int]);
        if fault.is_some() {
            proof {
                lemma_first_defect(findings, i as int);
            }
            return fault;
        }
        i += 1;
    }
    proof {
        lemma_no_defect(findings);
    }
    None
}

/// Refuses the first rename that breaks a rule.
fn check_renames(uri: &str, version: u32, protocol: &RecoveryProtocolV7) -> (fault: Option<
    OmniError,
>)
    ensures
        opt_view(fault) == first_defect(rename_findings(uri@, version, protocol@)),
{
    let renames = &protocol.intended_delta.renames;
    let ghost findings = rename_findings(uri@, version, protocol@);
    let mut i: usize = 0;
    while i < renames.len()
        invariant
            i <= renames.len(),
            *renames == protocol.intended_delta.renames,
            findings == rename_findings(uri@, version, protocol@),
            forall|j: int| 0 <= j < i ==> findings[j] is None,
        decreases renames.len() - i,
    {
        let fault: Option<OmniError> = check_rename(
            uri,
            version,
            &protocol.intended_delta.table_updates,
            &renames[i],
        );
        assert(opt_view(fault) == findings[i as int]);
        if fault.is_some() {
            proof {
                lemma_first_defect(findings, i as int);
            }
            return fault;
        }
        i += 1;
    }
    proof {
        lemma_no_defect(findings);
    }
    None
}

/// The aliases that the delta gives to live tables, each with its table.
fn collect_live_bindings(delta: &RecoveryManifestDelta) -> (bindings: Vec<(TableIdentity, String)>)
    ensures
        views(bindings@) == live_bindings(delta@),
{
    let mut bindings: Vec<(TableIdentity, String)> = Vec::new();
    let mut i: usize = 0;
    while i < delta.registrations.len()
        invariant
            i <= delta.registrations.len(),
            bindings.len() == i,
            forall|j: int|
                0 <= j < i ==> (#[trigger] bindings@[j])@ == live_bindings(delta@)[j],
        decreases delta.registrations.len() - i,
    {
        bindings.push((delta.registrations[i].identity, delta.registrations[i].table_key.clone()));
        i += 1;
    }
    let mut k: usize = 0;
    while k < delta.renames.len()
        invariant
            k <= delta.renames.len(),
            bindings.len() == delta.registrations.len() + k,
            forall|j: int|
                0 <= j < bindings.len() ==> (#[trigger] bindings@[j])@ == live_bindings(delta@)[j],
        decreases delta.renames.len() - k,
    {
        bindings.push((delta.renames[k].identity, delta.renames[k].table_key.clone()));
        k += 1;
    }
    assert(views(bindings@) =~= live_bindings(delta@));
    bindings
}

/// Refuses the first alias that is given to a second live table.
fn check_live_bindings(delta: &RecoveryManifestDelta) -> (defect: Option<String>)
    ensures
        opt_view(defect) == first_defect(binding_findings(live_bindings(delta@))),
{
    let bindings: Vec<(TableIdentity, String)> = collect_live_bindings(delta);
    let ghost models = live_bindings(delta@);
    let ghost findings = binding_findings(models);
    let mut i: usize = 0;
    while i < bindings.len()
        invariant
            i <= bindings.len(),
            models == views(bindings@),
            models == live_bindings(delta@),
            findings == binding_findings(models),
            forall|j: int| 0 <= j < i ==> findings[j] is None,
        decreases bindings.len() - i,
    {
        assert(models[i as int] == bindings@[i as int]@);
        assert(findings[i as int] == binding_defect(models, i as int));
        let mut j: usize = 0;
        while j < i
            invariant
                j <= i < bindings.len(),
                models == views(bindings@),
                models == live_bindings(delta@),
                models[i as int] == bindings@[i as int]@,
                findings == binding_findings(models),
                findings[i as int] == binding_defect(models, i as int),
                forall|a: int| 0 <= a < i ==> findings[a] is None,
                forall|a: int| 0 <= a < j ==> (#[trigger] models[a]).1 != models[i as int].1,
            decreases i - j,
        {
            assert(models[j as int] == bindings@[j as int]@);
            if bindings[j].1 == bindings[i].1 {
                let identity: String = bindings[i].0.to_text();
                proof {
                    assert(given_before(models, i as int, models[i as int].1));
                    lemma_first_defect(findings, i as int);
                }
                return Some(
                    cat5(
                        "SchemaApply delta binds more than one live identity to alias '",
                        bindings[i].1.as_str(),
                        "' (including ",
                        identity.as_str(),
                        ")",
                    ),
                );
            }
            j += 1;
        }
        i += 1;
    }
    proof {
        assert(views(bindings@) == models);
        lemma_no_defect(findings);
    }
    None
}

/// Whether every tombstone has a valid identity.
fn tombstones_are_valid(tombstones: &Vec<SidecarTombstone>) -> (answer: bool)
    ensures
        answer == tombstones_valid(views(tombstones@)),
{
    let ghost models = views(tombstones@);
    let mut i: usize = 0;
    while i < tombstones.len()
        invariant
            i <= tombstones.len(),
            models == views(tombstones@),
            forall|j: int| 0 <= j < i ==> (#[trigger] models[j]).identity.valid(),
        decreases tombstones.len() - i,
    {
        assert(models[i as int] == tombstones@[i as int]@);
        if tombstones[i].identity.validate().is_err() {
            return false;
        }
        i += 1;
    }
    true
}

/// Whether every registration is on main.
fn registrations_are_on_main(registrations: &Vec<SidecarTableRegistration>) -> (answer: bool)
    ensures
        answer == registrations_on_main(views(registrations@)),
{
    let ghost models = views(registrations@);
    let mut i: usize = 0;
    while i < registrations.len()
        invariant
            i <= registrations.len(),
            models == views(registrations@),
            forall|j: int| 0 <= j < i ==> (#[trigger] models[j]).table_branch is None,
        decreases registrations.len() - i,
    {
        assert(models[i as int] == registrations@[i as int]@);
        if registrations[i].table_branch.is_some() {
            return false;
        }
        i += 1;
    }
    true
}

/// Whether an alias is one that a pinned table has again after a rollback.
fn is_restored_alias(
    protocol: &RecoveryProtocolV7,
    pins: &Vec<SidecarTablePin>,
    alias: &String,
) -> (answer: bool)
    ensures
        answer == restored_aliases(protocol@.intended_delta.renames, views(pins@)).contains(
            alias@,
        ),
{
    let ghost restored = restored_aliases(protocol@.intended_delta.renames, views(pins@));
    let mut i: usize = 0;
    while i < pins.len()
        invariant
            i <= pins.len(),
            restored == restored_aliases(protocol@.intended_delta.renames, views(pins@)),
            forall|j: int| 0 <= j < i ==> restored[j] != alias@,
        decreases pins.len() - i,
    {
        assert(restored[i as int] == restored_alias(
            protocol@.intended_delta.renames,
            pins@[i as int]@,
        ));
        if *schema_apply_rollback_table_key(protocol, &pins[i]) == *alias {
            return true;
        }
        i += 1;
    }
    false
}

/// Whether a prepared rollback plan names restored tables, each once.
fn restored_plan_is_sound(protocol: &RecoveryProtocolV7, pins: &Vec<SidecarTablePin>) -> (answer:
    bool)
    ensures
        answer == restored_plan_sound(
            protocol@.rollback_audit_outcomes,
            restored_aliases(protocol@.intended_delta.renames, views(pins@)),
        ),
{
    let outcomes: &Vec<TableOutcome> = match &protocol.rollback_audit_outcomes {
        Some(outcomes) => outcomes,
        None => {
            return true;
        },
    };
    if !aliases_distinct(outcomes) {
        return false;
    }
    let ghost restored = restored_aliases(protocol@.intended_delta.renames, views(pins@));
    let ghost names = aliases::<TableOutcome>(views(outcomes@));
    let mut i: usize = 0;
    while i < outcomes.len()
        invariant
            i <= outcomes.len(),
            protocol.rollback_audit_outcomes == Some(*outcomes),
            names == aliases::<TableOutcome>(views(outcomes@)),
            restored == restored_aliases(protocol@.intended_delta.renames, views(pins@)),
            forall|j: int| 0 <= j < i ==> restored.contains(#[trigger] names[j]),
        decreases outcomes.len() - i,
    {
        assert(names[i as int] == outcomes@[i as int].table_key@);
        if !is_restored_alias(protocol, pins, &outcomes[i].table_key) {
            return false;
        }
        i += 1;
    }
    true
}

/// Refuses one pinned table whose effect or slot does not fit it.
fn check_table(
    phase: RecoveryEffectPhase,
    pin: &SidecarTablePin,
    effect: &RecoverySchemaApplyEffect,
    slot: &RecoveryTableUpdateSlot,
) -> (defect: Option<String>)
    ensures
        opt_view(defect) == table_defect(phase, pin@, effect@, slot@),
{
    let key: &str = pin.table_key.as_str();
    if pin.table_branch.is_some() {
        return Some(cat3("schema-v7 table '", key, "' must target main"));
    }
    if effect.table_key != pin.table_key || slot.table_key != pin.table_key {
        let identity: String = pin.identity.to_text();
        return Some(
            cat3(
                "SchemaApply identity ",
                identity.as_str(),
                " has inconsistent diagnostic aliases",
            ),
        );
    }
    let planned = effect.kind.planned_transaction();
    let next: u64 = if pin.expected_version == u64::MAX {
        pin.expected_version
    } else {
        pin.expected_version + 1
    };
    if planned.read_version != pin.expected_version || pin.post_commit_pin != next
        || slot.expected_version != pin.expected_version || slot.table_branch.is_some() {
        return Some(cat3("schema-v7 effect '", key, "' does not match its pin/delta pre-state"));
    }
    if effect.kind.is_first_touch() != (pin.expected_version == 0) {
        return Some(cat3("schema-v7 effect '", key, "' has inconsistent first-touch identity"));
    }
    match phase {
        RecoveryEffectPhase::Armed => {
            if effect.kind.confirmed_transaction().is_some() || slot.confirmed.is_some()
                || pin.confirmed_version.is_some() {
                return Some(
                    cat3("Armed schema-v7 effect '", key, "' already carries confirmation"),
                );
            }
            None
        },
        RecoveryEffectPhase::EffectsConfirmed => {
            let transaction = match effect.kind.confirmed_transaction() {
                Some(transaction) => transaction,
                None => {
                    return Some(
                        cat3(
                            "EffectsConfirmed schema-v7 effect '",
                            key,
                            "' lacks transaction confirmation",
                        ),
                    );
                },
            };
            let update = match &slot.confirmed {
                Some(update) => update,
                None => {
                    return Some(
                        cat3(
                            "EffectsConfirmed schema-v7 effect '",
                            key,
                            "' lacks a manifest output",
                        ),
                    );
                },
            };
            if !transaction.same(planned) || update.table_version != pin.post_commit_pin
                || update.table_branch.is_some() || !same_opt(
                &pin.confirmed_version,
                &Some(update.table_version),
            ) {
                return Some(
                    cat3(
                        "schema-v7 effect '",
                        key,
                        "' confirmation differs from its exact plan",
                    ),
                );
            }
            None
        },
    }
}

/// Refuses the first pinned table whose effect or slot does not fit it.
fn check_tables(protocol: &RecoveryProtocolV7, pins: &Vec<SidecarTablePin>) -> (defect: Option<
    String,
>)
    requires
        one_to_one(protocol@, views(pins@)),
    ensures
        opt_view(defect) == first_defect(table_findings(protocol@, views(pins@))),
{
    let ghost findings = table_findings(protocol@, views(pins@));
    let mut i: usize = 0;
    while i < pins.len()
        invariant
            i <= pins.len(),
            one_to_one(protocol@, views(pins@)),
            findings == table_findings(protocol@, views(pins@)),
            forall|j: int| 0 <= j < i ==> findings[j] is None,
        decreases pins.len() - i,
    {
        let pin: &SidecarTablePin = &pins[i];
        assert(identities::<SidecarTablePin>(views(pins@))[i as int] == pin.identity);
        if let Some(e) = place_of(&protocol.effects, pin.identity) {
            if let Some(s) = place_of(&protocol.intended_delta.table_updates, pin.identity) {
                let defect: Option<String> = check_table(
                    protocol.effect_phase,
                    pin,
                    &protocol.effects[e],
                    &protocol.intended_delta.table_updates[s],
                );
                assert(opt_view(defect) == findings[i as int]);
                if defect.is_some() {
                    proof {
                        lemma_first_defect(findings, i as int);
                    }
                    return defect;
                }
            }
        }
        i += 1;
    }
    proof {
        lemma_no_defect(findings);
    }
    None
}

/// Finds the first rule that the delta and the tables break, once registrations
/// and renames are sound.
fn find_delta_defect(protocol: &RecoveryProtocolV7, pins: &Vec<SidecarTablePin>) -> (defect: Option<
    String,
>)
    requires
        one_to_one(protocol@, views(pins@)),
    ensures
        opt_view(defect) == delta_defect(protocol@, views(pins@)),
{
    let delta = &protocol.intended_delta;
    let bindings: Option<String> = check_live_bindings(delta);
    if bindings.is_some() {
        return bindings;
    }
    if !tombstones_are_valid(&delta.tombstones) {
        return Some(
            cat2(
                "invalid tombstone identity: ",
                "stable_table_id and table_incarnation_id must be non-zero",
            ),
        );
    }
    if !registrations_are_on_main(&delta.registrations) {
        return Some("schema-v7 first-touch registrations must target main".to_owned());
    }
    if !restored_plan_is_sound(protocol, pins) {
        return Some(
            "schema-v7 rollback audit outcomes must name a unique subset of restored table aliases".to_owned(),
        );
    }
    check_tables(protocol, pins)
}

/// Refuses an exact schema-apply sidecar that breaks a rule of its shape.
pub fn validate_schema_apply_v7_shape(sidecar_uri: &str, sidecar: &RecoverySidecar) -> (result:
    Result<(), OmniError>)
    ensures
        fails_as(result, schema_apply_v7_fault(sidecar_uri@, sidecar@)),
{
    let version: u32 = sidecar.schema_version;
    if let Some(reason) = find_envelope_defect(sidecar) {
        return Err(malformed_error(sidecar_uri, version, reason.as_str()));
    }
    if let Some(protocol) = &sidecar.protocol_v7 {
        if let Some(fault) = check_registrations(sidecar_uri, version, protocol) {
            return Err(fault);
        }
        if let Some(fault) = check_renames(sidecar_uri, version, protocol) {
            return Err(fault);
        }
        if let Some(reason) = find_delta_defect(protocol, &sidecar.tables) {
            return Err(malformed_error(sidecar_uri, version, reason.as_str()));
        }
    }
    Ok(())
}

} // verus!
