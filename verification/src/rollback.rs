//! Rolling back: which tables are undone, the audit plan that is fixed before
//! anything is touched, and the changes that are published afterwards.

use vstd::prelude::*;

use crate::classify::{moved, table_requires_rollback_effect, ClassifiedTable};
use crate::error::{internal, OmniError, OmniErrorModel};
use crate::history::EffectOwnership;
use crate::identity::{bad_alias, path_of, TableIdentity};
use crate::lookup::{find_by_identity, place_of};
use crate::publish::{
    push_table_update, with_table_update, ChangeSet, ChangeSetModel, PublishedTable,
    PublishedTableModel,
};
use crate::shape::schema_apply::{restored_alias, schema_apply_rollback_table_key};
use crate::shape::validate::{exact, has_exact_protocol, shape_fault, validate_sidecar_shape};
use crate::sidecar::{
    BranchIdentifier, BranchIdentifierModel, RecoveryBranchMergeEffect,
    RecoveryBranchMergeEffectModel, RecoveryEnsureIndicesEffect,
    RecoveryEnsureIndicesRollbackV6Model, RecoveryProtocolV3Model, RecoveryProtocolV4Model,
    RecoveryProtocolV7Model, RecoveryProtocolV8Model, RecoverySidecar, RecoverySidecarModel,
    SidecarTablePin, SidecarTablePinModel, TableOutcome, TableOutcomeModel,
};
use crate::store::{sidecar_uri, uri_of};
use crate::value::{opt_view, replicate_opt, replicate_vec, views, Replicate};

verus! {

/// Whether a sidecar fixes the identity of its rollback.
pub open spec fn fixes_rollback(sidecar: RecoverySidecarModel) -> bool {
    exact(sidecar) || sidecar.ensure_indices_rollback_v6 is Some
}

/// Whether a sidecar fixes the identity of its rollback.
pub fn has_fixed_rollback_identity(sidecar: &RecoverySidecar) -> (answer: bool)
    ensures
        answer == fixes_rollback(sidecar@),
{
    has_exact_protocol(sidecar) || sidecar.ensure_indices_rollback_v6.is_some()
}

/// The branch-merge effect of a lifetime, if there is one.
pub open spec fn merge_effect(sidecar: RecoverySidecarModel, identity: TableIdentity) -> Option<
    RecoveryBranchMergeEffectModel,
> {
    match sidecar.protocol_v4 {
        Some(payload) => find_by_identity::<RecoveryBranchMergeEffect>(payload.effects, identity),
        None => None,
    }
}

/// The branch-merge effect of a lifetime, if there is one.
pub fn v4_effect_for(sidecar: &RecoverySidecar, identity: TableIdentity) -> (effect: Option<
    &RecoveryBranchMergeEffect,
>)
    ensures
        opt_view(effect) == merge_effect(sidecar@, identity),
{
    match &sidecar.protocol_v4 {
        Some(payload) => match place_of(&payload.effects, identity) {
            Some(i) => Some(&payload.effects[i]),
            None => None,
        },
        None => None,
    }
}

/// The version at which an exact effect forks the target branch, if it does.
pub open spec fn recorded_fork(sidecar: RecoverySidecarModel, identity: TableIdentity) -> Option<
    u64,
> {
    let merged = match merge_effect(sidecar, identity) {
        Some(effect) => effect.kind.fork_version(),
        None => None,
    };
    if merged is Some {
        merged
    } else {
        match sidecar.protocol_v8 {
            Some(payload) => match find_by_identity::<RecoveryEnsureIndicesEffect>(
                payload.effects,
                identity,
            ) {
                Some(effect) => effect.source_fork_version,
                None => None,
            },
            None => None,
        }
    }
}

/// The version at which the target branch of a pinned table is forked.
pub open spec fn fork_version(sidecar: RecoverySidecarModel, pin: SidecarTablePinModel) -> u64 {
    match recorded_fork(sidecar, pin.identity) {
        Some(version) => version,
        None => pin.expected_version,
    }
}

/// The version at which the target branch of a pinned table is forked.
pub fn first_touch_fork_version(sidecar: &RecoverySidecar, pin: &SidecarTablePin) -> (version: u64)
    ensures
        version == fork_version(sidecar@, pin@),
{
    if let Some(effect) = v4_effect_for(sidecar, pin.identity) {
        if let Some(version) = effect.kind.source_fork_version() {
            return version;
        }
    }
    if let Some(payload) = &sidecar.protocol_v8 {
        if let Some(i) = place_of(&payload.effects, pin.identity) {
            if let Some(version) = payload.effects[i].source_fork_version {
                return version;
            }
        }
    }
    pin.expected_version
}

/// The confirmed identity of the target branch of a lifetime, if there is one.
pub open spec fn recorded_branch(sidecar: RecoverySidecarModel, identity: TableIdentity) -> Option<
    BranchIdentifierModel,
> {
    let merged = match merge_effect(sidecar, identity) {
        Some(effect) => effect.kind.confirmed_branch(),
        None => None,
    };
    if merged is Some {
        merged
    } else {
        match sidecar.protocol_v8 {
            Some(payload) => match find_by_identity::<RecoveryEnsureIndicesEffect>(
                payload.effects,
                identity,
            ) {
                Some(effect) => effect.confirmed_branch_identifier,
                None => None,
            },
            None => None,
        }
    }
}

/// The confirmed identity of the target branch of a lifetime, if there is one.
pub fn recorded_branch_of(sidecar: &RecoverySidecar, identity: TableIdentity) -> (identifier: Option<
    &BranchIdentifier,
>)
    ensures
        opt_view(identifier) == recorded_branch(sidecar@, identity),
{
    if let Some(effect) = v4_effect_for(sidecar, identity) {
        if let Some(identifier) = effect.kind.confirmed_branch_identifier() {
            return Some(identifier);
        }
    }
    if let Some(payload) = &sidecar.protocol_v8 {
        if let Some(i) = place_of(&payload.effects, identity) {
            return payload.effects[i].confirmed_branch_identifier.as_ref();
        }
    }
    None
}

/// The alias that a pinned table has again after a rollback.
pub open spec fn rollback_alias(
    sidecar: RecoverySidecarModel,
    pin: SidecarTablePinModel,
) -> Seq<char> {
    match sidecar.protocol_v7 {
        Some(payload) => restored_alias(payload.intended_delta.renames, pin),
        None => pin.table_key,
    }
}

/// The alias that a pinned table has again after a rollback.
pub fn rollback_table_key<'a>(sidecar: &'a RecoverySidecar, pin: &'a SidecarTablePin) -> (alias:
    &'a String)
    ensures
        alias@ == rollback_alias(sidecar@, pin@),
{
    match &sidecar.protocol_v7 {
        Some(payload) => schema_apply_rollback_table_key(payload, pin),
        None => &pin.table_key,
    }
}

/// Whether the effect on a table is this attempt's to undo: it is at the head, or
/// it is undone there already.
pub open spec fn owned(ownership: EffectOwnership) -> bool {
    ownership == EffectOwnership::OwnAtHead || ownership == EffectOwnership::OwnCompensatedAtHead
}

/// Whether the effect on a table is this attempt's to undo.
pub fn is_owned(ownership: EffectOwnership) -> (answer: bool)
    ensures
        answer == owned(ownership),
{
    match ownership {
        EffectOwnership::OwnAtHead | EffectOwnership::OwnCompensatedAtHead => true,
        _ => false,
    }
}

/// Whether a table is undone by a rollback. An exact attempt undoes what it owns
/// and nothing else.
pub open spec fn undone(sidecar: RecoverySidecarModel, state: ClassifiedTable) -> bool {
    (exact(sidecar) ==> owned(state.effect_ownership)) && moved(state.classification)
}

/// The outcome of undoing one table.
pub open spec fn undo_outcome(alias: Seq<char>, state: ClassifiedTable) -> TableOutcomeModel {
    TableOutcomeModel {
        table_key: alias,
        from_version: state.lance_head,
        to_version: state.manifest_pinned,
    }
}

/// The outcomes of a rollback for the first `n` tables.
pub open spec fn undo_outcomes(
    sidecar: RecoverySidecarModel,
    states: Seq<ClassifiedTable>,
    n: int,
) -> Seq<TableOutcomeModel>
    decreases n,
{
    if n <= 0 {
        Seq::empty()
    } else if undone(sidecar, states[n - 1]) {
        undo_outcomes(sidecar, states, n - 1).push(
            undo_outcome(
                if exact(sidecar) {
                    rollback_alias(sidecar, sidecar.tables[n - 1])
                } else {
                    sidecar.tables[n - 1].table_key
                },
                states[n - 1],
            ),
        )
    } else {
        undo_outcomes(sidecar, states, n - 1)
    }
}

/// The outcomes that a rollback is going to have: for each table that is undone,
/// its head before and the version it is set back to.
pub fn rollback_audit_outcomes_for_plan(
    sidecar: &RecoverySidecar,
    states: &Vec<ClassifiedTable>,
) -> (outcomes: Vec<TableOutcome>)
    requires
        states.len() == sidecar.tables.len(),
    ensures
        views(outcomes@) == undo_outcomes(sidecar@, states@, states@.len() as int),
{
    let is_exact: bool = has_exact_protocol(sidecar);
    let mut outcomes: Vec<TableOutcome> = Vec::new();
    let mut i: usize = 0;
    assert(views(outcomes@) =~= undo_outcomes(sidecar@, states@, 0));
    while i < states.len()
        invariant
            i <= states.len(),
            states.len() == sidecar.tables.len(),
            is_exact == exact(sidecar@),
            views(outcomes@) == undo_outcomes(sidecar@, states@, i as int),
        decreases states.len() - i,
    {
        let state: ClassifiedTable = states[i];
        let pin: &SidecarTablePin = &sidecar.tables[i];
        let ghost before = outcomes@;
        assert(sidecar@.tables[i as int] == pin@);
        if (!is_exact || is_owned(state.effect_ownership)) && table_requires_rollback_effect(
            &state,
        ) {
            let alias: &String = if is_exact {
                rollback_table_key(sidecar, pin)
            } else {
                &pin.table_key
            };
            outcomes.push(
                TableOutcome {
                    table_key: alias.clone(),
                    from_version: state.lance_head,
                    to_version: state.manifest_pinned,
                },
            );
            assert(views(outcomes@) =~= views(before).push(undo_outcome(alias@, state)));
        }
        i += 1;
    }
    outcomes
}

/// The rollback plan that a sidecar holds already, if any.
pub open spec fn prepared_plan(sidecar: RecoverySidecarModel) -> Option<Seq<TableOutcomeModel>> {
    let v3 = match sidecar.protocol_v3 {
        Some(payload) => payload.rollback_audit_outcomes,
        None => None,
    };
    let v4 = match sidecar.protocol_v4 {
        Some(payload) => payload.rollback_audit_outcomes,
        None => None,
    };
    let v7 = match sidecar.protocol_v7 {
        Some(payload) => payload.rollback_audit_outcomes,
        None => None,
    };
    let v8 = match sidecar.protocol_v8 {
        Some(payload) => payload.rollback_audit_outcomes,
        None => None,
    };
    let v6 = match sidecar.ensure_indices_rollback_v6 {
        Some(payload) => payload.rollback_audit_outcomes,
        None => None,
    };
    if v3 is Some {
        v3
    } else if v4 is Some {
        v4
    } else if v7 is Some {
        v7
    } else if v8 is Some {
        v8
    } else {
        v6
    }
}

/// A sidecar with its rollback plan.
pub open spec fn with_plan(sidecar: RecoverySidecarModel, plan: Seq<TableOutcomeModel>) -> RecoverySidecarModel {
    if sidecar.protocol_v3 is Some {
        RecoverySidecarModel {
            protocol_v3: Some(
                RecoveryProtocolV3Model {
                    rollback_audit_outcomes: Some(plan),
                    ..sidecar.protocol_v3->0
                },
            ),
            ..sidecar
        }
    } else if sidecar.protocol_v4 is Some {
        RecoverySidecarModel {
            protocol_v4: Some(
                RecoveryProtocolV4Model {
                    rollback_audit_outcomes: Some(plan),
                    ..sidecar.protocol_v4->0
                },
            ),
            ..sidecar
        }
    } else if sidecar.protocol_v7 is Some {
        RecoverySidecarModel {
            protocol_v7: Some(
                RecoveryProtocolV7Model {
                    rollback_audit_outcomes: Some(plan),
                    ..sidecar.protocol_v7->0
                },
            ),
            ..sidecar
        }
    } else if sidecar.protocol_v8 is Some {
        RecoverySidecarModel {
            protocol_v8: Some(
                RecoveryProtocolV8Model {
                    rollback_audit_outcomes: Some(plan),
                    ..sidecar.protocol_v8->0
                },
            ),
            ..sidecar
        }
    } else {
        RecoverySidecarModel {
            ensure_indices_rollback_v6: Some(
                RecoveryEnsureIndicesRollbackV6Model {
                    rollback_audit_outcomes: Some(plan),
                    ..sidecar.ensure_indices_rollback_v6->0
                },
            ),
            ..sidecar
        }
    }
}

/// Whether a sidecar holds a rollback plan already.
fn is_prepared(sidecar: &RecoverySidecar) -> (answer: bool)
    ensures
        answer == (prepared_plan(sidecar@) is Some),
{
    if let Some(payload) = &sidecar.protocol_v3 {
        if payload.rollback_audit_outcomes.is_some() {
            return true;
        }
    }
    if let Some(payload) = &sidecar.protocol_v4 {
        if payload.rollback_audit_outcomes.is_some() {
            return true;
        }
    }
    if let Some(payload) = &sidecar.protocol_v7 {
        if payload.rollback_audit_outcomes.is_some() {
            return true;
        }
    }
    if let Some(payload) = &sidecar.protocol_v8 {
        if payload.rollback_audit_outcomes.is_some() {
            return true;
        }
    }
    match &sidecar.ensure_indices_rollback_v6 {
        Some(payload) => payload.rollback_audit_outcomes.is_some(),
        None => false,
    }
}

/// A sidecar whose rollback plan is fixed, or why it cannot be.
pub open spec fn planned_sidecar(
    root: Seq<char>,
    sidecar: RecoverySidecarModel,
    states: Seq<ClassifiedTable>,
) -> Result<RecoverySidecarModel, OmniErrorModel> {
    let planned = with_plan(
        sidecar,
        undo_outcomes(sidecar, states, states.len() as int),
    );
    if prepared_plan(sidecar) is Some {
        Ok(sidecar)
    } else if !fixes_rollback(sidecar) {
        Err(
            internal(
                "prepare_fixed_rollback_audit_plan called without a fixed rollback identity"@,
            ),
        )
    } else {
        match shape_fault(uri_of(root, sidecar.operation_id), planned) {
            Some(error) => Err(error),
            None => Ok(planned),
        }
    }
}

/// Fixes the rollback plan of a sidecar, before the first table is restored. A
/// plan that is fixed already stays: a retry replays what was observed before
/// anything was undone. The caller stores the sidecar before it goes on.
pub fn prepare_fixed_rollback_audit_plan(
    root_uri: &str,
    sidecar: &RecoverySidecar,
    states: &Vec<ClassifiedTable>,
) -> (result: Result<RecoverySidecar, OmniError>)
    requires
        states.len() == sidecar.tables.len(),
    ensures
        match planned_sidecar(root_uri@, sidecar@, states@) {
            Ok(prepared) => result is Ok && result->Ok_0@ == prepared,
            Err(error) => result is Err && result->Err_0@ == error,
        },
{
    let mut prepared: RecoverySidecar = sidecar.replicate();
    if is_prepared(sidecar) {
        return Ok(prepared);
    }
    let outcomes: Vec<TableOutcome> = rollback_audit_outcomes_for_plan(sidecar, states);
    let ghost plan = views(outcomes@);
    let ghost original = prepared;
    if let Some(mut payload) = prepared.protocol_v3.take() {
        payload.rollback_audit_outcomes = Some(outcomes);
        prepared.protocol_v3 = Some(payload);
    } else if let Some(mut payload) = prepared.protocol_v4.take() {
        payload.rollback_audit_outcomes = Some(outcomes);
        prepared.protocol_v4 = Some(payload);
    } else if let Some(mut payload) = prepared.protocol_v7.take() {
        payload.rollback_audit_outcomes = Some(outcomes);
        prepared.protocol_v7 = Some(payload);
    } else if let Some(mut payload) = prepared.protocol_v8.take() {
        payload.rollback_audit_outcomes = Some(outcomes);
        prepared.protocol_v8 = Some(payload);
    } else if let Some(mut payload) = prepared.ensure_indices_rollback_v6.take() {
        payload.rollback_audit_outcomes = Some(outcomes);
        prepared.ensure_indices_rollback_v6 = Some(payload);
    } else {
        return Err(
            OmniError::manifest_internal(
                "prepare_fixed_rollback_audit_plan called without a fixed rollback identity",
            ),
        );
    }
    assert(prepared@ == with_plan(sidecar@, plan));
    let uri: String = sidecar_uri(root_uri, prepared.operation_id.as_str());
    match validate_sidecar_shape(uri.as_str(), &prepared) {
        Ok(()) => Ok(prepared),
        Err(error) => Err(error),
    }
}

/// One table to set back.
#[derive(Debug, PartialEq, Eq)]
pub struct Restoration {
    pub identity: TableIdentity,
    /// Alias that the table is published under afterwards.
    pub table_key: String,
    pub table_path: String,
    pub table_branch: Option<String>,
    /// Version that the manifest selects, which the table is set back to.
    pub target_version: u64,
    /// Whether an earlier pass has set it back already, so that only the publish
    /// is missing.
    pub already_restored: bool,
}

/// What a [`Restoration`] stands for.
pub struct RestorationModel {
    pub identity: TableIdentity,
    pub table_key: Seq<char>,
    pub table_path: Seq<char>,
    pub table_branch: Option<Seq<char>>,
    pub target_version: u64,
    pub already_restored: bool,
}

impl View for Restoration {
    type V = RestorationModel;

    open spec fn view(&self) -> RestorationModel {
        RestorationModel {
            identity: self.identity,
            table_key: self.table_key@,
            table_path: self.table_path@,
            table_branch: opt_view(self.table_branch),
            target_version: self.target_version,
            already_restored: self.already_restored,
        }
    }
}

/// How a pinned table is set back and published under `alias`.
pub open spec fn restoration(
    pin: SidecarTablePinModel,
    state: ClassifiedTable,
    alias: Seq<char>,
) -> RestorationModel {
    RestorationModel {
        identity: pin.identity,
        table_key: alias,
        table_path: pin.table_path,
        table_branch: pin.table_branch,
        target_version: state.manifest_pinned,
        already_restored: state.effect_ownership == EffectOwnership::OwnCompensatedAtHead,
    }
}

/// How a pinned table is set back and published under `alias`.
pub fn restoration_of(pin: &SidecarTablePin, state: &ClassifiedTable, alias: &String) -> (restored:
    Restoration)
    ensures
        restored@ == restoration(pin@, *state, alias@),
{
    Restoration {
        identity: pin.identity,
        table_key: alias.clone(),
        table_path: pin.table_path.clone(),
        table_branch: replicate_opt(&pin.table_branch),
        target_version: state.manifest_pinned,
        already_restored: state.effect_ownership == EffectOwnership::OwnCompensatedAtHead,
    }
}

/// The tables among the first `n` that a rollback sets back.
pub open spec fn restorations(
    sidecar: RecoverySidecarModel,
    states: Seq<ClassifiedTable>,
    n: int,
) -> Seq<RestorationModel>
    decreases n,
{
    if n <= 0 {
        Seq::empty()
    } else if undone(sidecar, states[n - 1]) {
        restorations(sidecar, states, n - 1).push(
            restoration(sidecar.tables[n - 1], states[n - 1], sidecar.tables[n - 1].table_key),
        )
    } else {
        restorations(sidecar, states, n - 1)
    }
}

/// The tables that a rollback sets back, in order.
pub fn plan_restorations(sidecar: &RecoverySidecar, states: &Vec<ClassifiedTable>) -> (list: Vec<
    Restoration,
>)
    requires
        states.len() == sidecar.tables.len(),
    ensures
        views(list@) == restorations(sidecar@, states@, states@.len() as int),
{
    let is_exact: bool = has_exact_protocol(sidecar);
    let mut list: Vec<Restoration> = Vec::new();
    let mut i: usize = 0;
    assert(views(list@) =~= restorations(sidecar@, states@, 0));
    while i < states.len()
        invariant
            i <= states.len(),
            states.len() == sidecar.tables.len(),
            is_exact == exact(sidecar@),
            views(list@) == restorations(sidecar@, states@, i as int),
        decreases states.len() - i,
    {
        let state: ClassifiedTable = states[i];
        let pin: &SidecarTablePin = &sidecar.tables[i];
        let ghost before = list@;
        assert(sidecar@.tables[i as int] == pin@);
        if (!is_exact || is_owned(state.effect_ownership)) && table_requires_rollback_effect(
            &state,
        ) {
            list.push(restoration_of(pin, &state, &pin.table_key));
            assert(views(list@) =~= views(before).push(
                restoration(pin@, state, pin.table_key@),
            ));
        }
        i += 1;
    }
    list
}

/// The changes that publish the first `n` tables as they are after they were set
/// back, or why they cannot be published.
pub open spec fn restored_changes(
    list: Seq<RestorationModel>,
    tables: Seq<PublishedTableModel>,
    n: int,
) -> Result<ChangeSetModel, OmniErrorModel>
    decreases n,
{
    if n <= 0 {
        Ok(ChangeSetModel::none())
    } else {
        match restored_changes(list, tables, n - 1) {
            Err(error) => Err(error),
            Ok(set) => match path_of(list[n - 1].table_key, list[n - 1].identity) {
                None => Err(bad_alias(list[n - 1].table_key)),
                Some(_) => Ok(
                    with_table_update(
                        set,
                        list[n - 1].identity,
                        list[n - 1].table_key,
                        list[n - 1].table_branch,
                        list[n - 1].target_version,
                        tables[n - 1],
                    ),
                ),
            },
        }
    }
}

/// How the collection of changes ends.
pub open spec fn changes_result(
    result: Result<ChangeSet, OmniError>,
    expected: Result<ChangeSetModel, OmniErrorModel>,
) -> bool {
    match expected {
        Ok(set) => result is Ok && result->Ok_0@ == set,
        Err(error) => result is Err && result->Err_0@ == error,
    }
}

/// An error among the first tables is the error of all of them.
proof fn lemma_restored_error(
    list: Seq<RestorationModel>,
    tables: Seq<PublishedTableModel>,
    n: int,
    m: int,
)
    requires
        0 <= n <= m,
        restored_changes(list, tables, n) is Err,
    ensures
        restored_changes(list, tables, m) == restored_changes(list, tables, n),
    decreases m - n,
{
    if n < m {
        lemma_restored_error(list, tables, n, m - 1);
    }
}

/// The changes that publish tables as they are after they were set back: each on
/// the condition that the manifest still selects the version they were set back
/// to.
pub fn collect_restored_changes(list: &Vec<Restoration>, tables: &Vec<PublishedTable>) -> (result:
    Result<ChangeSet, OmniError>)
    requires
        tables.len() == list.len(),
    ensures
        changes_result(
            result,
            restored_changes(views(list@), views(tables@), list@.len() as int),
        ),
{
    let ghost models = views(list@);
    let ghost published = views(tables@);
    let mut set: ChangeSet = ChangeSet::new();
    let mut i: usize = 0;
    while i < list.len()
        invariant
            i <= list.len(),
            tables.len() == list.len(),
            models == views(list@),
            published == views(tables@),
            restored_changes(models, published, i as int) == Ok::<ChangeSetModel, OmniErrorModel>(
                set@,
            ),
        decreases list.len() - i,
    {
        assert(models[i as int] == list@[i as int]@);
        assert(published[i as int] == tables@[i as int]@);
        let item: &Restoration = &list[i];
        if let Err(error) = push_table_update(
            &mut set,
            item.identity,
            &item.table_key,
            &item.table_branch,
            item.target_version,
            &tables[i],
        ) {
            proof {
                lemma_restored_error(models, published, i + 1, list@.len() as int);
            }
            return Err(error);
        }
        i += 1;
    }
    Ok(set)
}

/// The outcomes that the audit row of a rollback records: the fixed plan where
/// the sidecar has one that covers its tables, or what was undone.
pub open spec fn rollback_outcomes(
    sidecar: RecoverySidecarModel,
    done: Seq<TableOutcomeModel>,
) -> Seq<TableOutcomeModel> {
    let v3 = match sidecar.protocol_v3 {
        Some(payload) => payload.rollback_audit_outcomes,
        None => None,
    };
    let v4 = match sidecar.protocol_v4 {
        Some(payload) => payload.rollback_audit_outcomes,
        None => None,
    };
    let v6 = match sidecar.ensure_indices_rollback_v6 {
        Some(payload) => payload.rollback_audit_outcomes,
        None => None,
    };
    if v3 is Some {
        v3->0
    } else if v4 is Some {
        v4->0
    } else if v6 is Some {
        v6->0
    } else {
        done
    }
}

/// The outcomes of a rollback for the first `n` tables, under their pinned
/// aliases.
pub open spec fn done_outcomes(
    sidecar: RecoverySidecarModel,
    states: Seq<ClassifiedTable>,
    n: int,
) -> Seq<TableOutcomeModel>
    decreases n,
{
    if n <= 0 {
        Seq::empty()
    } else if undone(sidecar, states[n - 1]) {
        done_outcomes(sidecar, states, n - 1).push(
            undo_outcome(sidecar.tables[n - 1].table_key, states[n - 1]),
        )
    } else {
        done_outcomes(sidecar, states, n - 1)
    }
}

/// The outcomes that the audit row of a rollback records.
pub fn rollback_audit_outcomes(sidecar: &RecoverySidecar, states: &Vec<ClassifiedTable>) -> (outcomes:
    Vec<TableOutcome>)
    requires
        states.len() == sidecar.tables.len(),
    ensures
        views(outcomes@) == rollback_outcomes(
            sidecar@,
            done_outcomes(sidecar@, states@, states@.len() as int),
        ),
{
    if let Some(payload) = &sidecar.protocol_v3 {
        if let Some(plan) = &payload.rollback_audit_outcomes {
            return replicate_vec(plan);
        }
    }
    if let Some(payload) = &sidecar.protocol_v4 {
        if let Some(plan) = &payload.rollback_audit_outcomes {
            return replicate_vec(plan);
        }
    }
    if let Some(payload) = &sidecar.ensure_indices_rollback_v6 {
        if let Some(plan) = &payload.rollback_audit_outcomes {
            return replicate_vec(plan);
        }
    }
    let is_exact: bool = has_exact_protocol(sidecar);
    let mut outcomes: Vec<TableOutcome> = Vec::new();
    let mut i: usize = 0;
    assert(views(outcomes@) =~= done_outcomes(sidecar@, states@, 0));
    while i < states.len()
        invariant
            i <= states.len(),
            states.len() == sidecar.tables.len(),
            is_exact == exact(sidecar@),
            views(outcomes@) == done_outcomes(sidecar@, states@, i as int),
        decreases states.len() - i,
    {
        let state: ClassifiedTable = states[i];
        let pin: &SidecarTablePin = &sidecar.tables[i];
        let ghost before = outcomes@;
        assert(sidecar@.tables[i as int] == pin@);
        if (!is_exact || is_owned(state.effect_ownership)) && table_requires_rollback_effect(
            &state,
        ) {
            outcomes.push(
                TableOutcome {
                    table_key: pin.table_key.clone(),
                    from_version: state.lance_head,
                    to_version: state.manifest_pinned,
                },
            );
            assert(views(outcomes@) =~= views(before).push(
                undo_outcome(pin.table_key@, state),
            ));
        }
        i += 1;
    }
    outcomes
}

} // verus!
