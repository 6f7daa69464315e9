//! Arming: the sidecar that makes an attempt durable before its first effect.

use vstd::prelude::*;

use crate::db::{fresh_ulid, started_now};
use crate::error::{internal, OmniError, OmniErrorModel};
use crate::identity::{IdentityMap, TableIdentity};
use crate::lookup::{has_identity, identities, identities_distinct};
use crate::shape::validate::{shape_fault, validate_sidecar_shape};
use crate::sidecar::{
    kind_text, RecoveryAuthorityToken, RecoveryAuthorityTokenModel, RecoveryBranchMergeEffect,
    RecoveryBranchMergeEffectModel, RecoveryEffectPhase, RecoveryEnsureIndicesEffect,
    RecoveryEnsureIndicesEffectModel, RecoveryEnsureIndicesRollbackV6,
    RecoveryEnsureIndicesRollbackV6Model, RecoveryLineageIntent, RecoveryLineageIntentModel,
    RecoveryManifestDelta, RecoveryManifestDeltaModel, RecoveryProtocolV3, RecoveryProtocolV3Model,
    RecoveryProtocolV4, RecoveryProtocolV4Model, RecoveryProtocolV7, RecoveryProtocolV7Model,
    RecoveryProtocolV8, RecoveryProtocolV8Model, RecoverySchemaApplyEffect,
    RecoverySchemaApplyEffectModel, RecoverySidecar, RecoverySidecarModel, RecoveryTableEffect,
    RecoveryTableEffectModel, RecoveryTableUpdateSlot, RecoveryTableUpdateSlotModel, SidecarKind,
    SidecarTablePin, SidecarTablePinModel, StagedTransactionIdentity,
    StagedTransactionIdentityModel, ENSURE_INDICES_ROLLBACK_SCHEMA_VERSION,
    IDENTITY_AWARE_SIDECAR_SCHEMA_VERSION,
};
use crate::text::{all_digits, cat2};
use crate::value::{opt_view, replicate_opt, views, Replicate};

verus! {

/// What is new about every attempt: its ids and its start.
#[derive(Debug, PartialEq, Eq)]
pub struct FreshIds {
    pub operation_id: String,
    pub started_at: String,
    /// Commit id that the rollback of the attempt will have.
    pub rollback_graph_commit_id: String,
}

/// What a [`FreshIds`] stands for.
pub struct FreshIdsModel {
    pub operation_id: Seq<char>,
    pub started_at: Seq<char>,
    pub rollback_graph_commit_id: Seq<char>,
}

impl View for FreshIds {
    type V = FreshIdsModel;

    open spec fn view(&self) -> FreshIdsModel {
        FreshIdsModel {
            operation_id: self.operation_id@,
            started_at: self.started_at@,
            rollback_graph_commit_id: self.rollback_graph_commit_id@,
        }
    }
}

impl FreshIdsModel {
    /// What holds of the ids and the start of every attempt.
    pub open spec fn fresh(self) -> bool {
        &&& self.operation_id.len() == 26
        &&& self.rollback_graph_commit_id.len() == 26
        &&& self.started_at.len() > 0
        &&& all_digits(self.started_at)
    }
}

impl FreshIds {
    /// The ids and the start of an attempt that begins now.
    pub fn generate() -> (ids: Self)
        ensures
            ids@.fresh(),
    {
        FreshIds {
            operation_id: fresh_ulid(),
            started_at: started_now(),
            rollback_graph_commit_id: fresh_ulid(),
        }
    }
}

/// A sidecar with pins and without any payload.
pub open spec fn plain_sidecar(
    version: u32,
    kind: SidecarKind,
    ids: FreshIdsModel,
    branch: Option<Seq<char>>,
    actor_id: Option<Seq<char>>,
    tables: Seq<SidecarTablePinModel>,
) -> RecoverySidecarModel {
    RecoverySidecarModel {
        schema_version: version,
        operation_id: ids.operation_id,
        started_at: ids.started_at,
        branch,
        actor_id,
        writer_kind: kind,
        tables,
        merge_source_commit_id: None,
        additional_registrations: Seq::empty(),
        tombstones: Seq::empty(),
        schema_apply_manifest_published: false,
        schema_apply_target_schema_ir_hash: None,
        protocol_v3: None,
        protocol_v4: None,
        protocol_v7: None,
        protocol_v8: None,
        ensure_indices_rollback_v6: None,
    }
}

/// A sidecar with pins and without any payload.
pub fn new_unvalidated_sidecar(
    schema_version: u32,
    writer_kind: SidecarKind,
    ids: &FreshIds,
    branch: Option<String>,
    actor_id: Option<String>,
    tables: Vec<SidecarTablePin>,
) -> (sidecar: RecoverySidecar)
    ensures
        sidecar@ == plain_sidecar(
            schema_version,
            writer_kind,
            ids@,
            opt_view(branch),
            opt_view(actor_id),
            views(tables@),
        ),
{
    let sidecar = RecoverySidecar {
        schema_version,
        operation_id: ids.operation_id.clone(),
        started_at: ids.started_at.clone(),
        branch,
        actor_id,
        writer_kind,
        tables,
        merge_source_commit_id: None,
        additional_registrations: Vec::new(),
        tombstones: Vec::new(),
        schema_apply_manifest_published: false,
        schema_apply_target_schema_ir_hash: None,
        protocol_v3: None,
        protocol_v4: None,
        protocol_v7: None,
        protocol_v8: None,
        ensure_indices_rollback_v6: None,
    };
    assert(sidecar@.additional_registrations =~= Seq::empty());
    assert(sidecar@.tombstones =~= Seq::empty());
    sidecar
}

/// A sidecar that keeps the rules, or the error for the first that it breaks.
pub open spec fn armed(label: Seq<char>, sidecar: RecoverySidecarModel) -> Result<
    RecoverySidecarModel,
    OmniErrorModel,
> {
    match shape_fault(label, sidecar) {
        Some(error) => Err(error),
        None => Ok(sidecar),
    }
}

/// Relates a result to the sidecar or the error that is due.
pub open spec fn arms(
    result: Result<RecoverySidecar, OmniError>,
    expected: Result<RecoverySidecarModel, OmniErrorModel>,
) -> bool {
    match expected {
        Ok(sidecar) => result is Ok && result->Ok_0@ == sidecar,
        Err(error) => result is Err && result->Err_0@ == error,
    }
}

/// Hands out a sidecar that keeps the rules.
fn arm(label: &str, sidecar: RecoverySidecar) -> (result: Result<RecoverySidecar, OmniError>)
    ensures
        arms(result, armed(label@, sidecar@)),
{
    match validate_sidecar_shape(label, &sidecar) {
        Ok(_) => Ok(sidecar),
        Err(error) => Err(error),
    }
}

/// The output slots of a list of pins.
pub open spec fn open_slots(pins: Seq<SidecarTablePinModel>) -> Seq<RecoveryTableUpdateSlotModel> {
    Seq::new(
        pins.len(),
        |i: int|
            RecoveryTableUpdateSlotModel {
                identity: pins[i].identity,
                table_key: pins[i].table_key,
                expected_version: pins[i].expected_version,
                table_branch: pins[i].table_branch,
                confirmed: None,
            },
    )
}

/// A manifest delta that updates the pinned tables and nothing else.
pub open spec fn open_delta(pins: Seq<SidecarTablePinModel>) -> RecoveryManifestDeltaModel {
    RecoveryManifestDeltaModel {
        table_updates: open_slots(pins),
        registrations: Seq::empty(),
        renames: Seq::empty(),
        tombstones: Seq::empty(),
    }
}

/// Builds a manifest delta that updates the pinned tables and nothing else.
fn build_open_delta(pins: &Vec<SidecarTablePin>) -> (delta: RecoveryManifestDelta)
    ensures
        delta@ == open_delta(views(pins@)),
{
    let ghost models = views(pins@);
    let ghost expected = open_slots(models);
    let mut table_updates: Vec<RecoveryTableUpdateSlot> = Vec::new();
    let mut i: usize = 0;
    while i < pins.len()
        invariant
            i <= pins.len(),
            models == views(pins@),
            expected == open_slots(models),
            table_updates.len() == i,
            forall|j: int| 0 <= j < i ==> (#[trigger] table_updates@[j])@ == expected[j],
        decreases pins.len() - i,
    {
        assert(models[i as int] == pins@[i as int]@);
        table_updates.push(
            RecoveryTableUpdateSlot {
                identity: pins[i].identity,
                table_key: pins[i].table_key.clone(),
                expected_version: pins[i].expected_version,
                table_branch: replicate_opt(&pins[i].table_branch),
                confirmed: None,
            },
        );
        i += 1;
    }
    let delta = RecoveryManifestDelta {
        table_updates,
        registrations: Vec::new(),
        renames: Vec::new(),
        tombstones: Vec::new(),
    };
    assert(delta@.table_updates =~= expected);
    assert(delta@.registrations =~= Seq::empty());
    assert(delta@.renames =~= Seq::empty());
    assert(delta@.tombstones =~= Seq::empty());
    delta
}

/// Whether there is exactly one planned transaction for every pinned table.
pub open spec fn plans_every_pin(
    pins: Seq<SidecarTablePinModel>,
    planned: Map<TableIdentity, StagedTransactionIdentityModel>,
) -> bool {
    &&& pins.len() > 0
    &&& identities::<SidecarTablePin>(pins).no_duplicates()
    &&& planned.dom().len() == pins.len()
    &&& forall|i: int| 0 <= i < pins.len() ==> planned.contains_key((#[trigger] pins[i]).identity)
}

/// Whether there is exactly one planned transaction for every pinned table.
fn is_every_pin_planned(
    pins: &Vec<SidecarTablePin>,
    planned: &IdentityMap<StagedTransactionIdentity>,
) -> (answer: bool)
    ensures
        answer == plans_every_pin(views(pins@), planned@),
{
    let ghost models = views(pins@);
    if pins.len() == 0 || !identities_distinct(pins) || planned.len() != pins.len() {
        return false;
    }
    let mut i: usize = 0;
    while i < pins.len()
        invariant
            i <= pins.len(),
            models == views(pins@),
            forall|j: int|
                0 <= j < i ==> planned@.contains_key((#[trigger] models[j]).identity),
        decreases pins.len() - i,
    {
        assert(models[i as int] == pins@[i as int]@);
        if planned.get(pins[i].identity).is_none() {
            assert(!planned@.contains_key(models[i as int].identity));
            return false;
        }
        i += 1;
    }
    true
}

/// The effects of a mutation or load, before any of them.
pub open spec fn armed_effects(
    pins: Seq<SidecarTablePinModel>,
    planned: Map<TableIdentity, StagedTransactionIdentityModel>,
) -> Seq<RecoveryTableEffectModel> {
    Seq::new(
        pins.len(),
        |i: int|
            RecoveryTableEffectModel {
                identity: pins[i].identity,
                table_key: pins[i].table_key,
                planned_transaction: planned[pins[i].identity],
                confirmed_transaction: None,
            },
    )
}

/// Builds the effects of a mutation or load.
fn build_armed_effects(
    pins: &Vec<SidecarTablePin>,
    planned: &IdentityMap<StagedTransactionIdentity>,
) -> (effects: Vec<RecoveryTableEffect>)
    requires
        plans_every_pin(views(pins@), planned@),
    ensures
        views(effects@) == armed_effects(views(pins@), planned@),
{
    let ghost models = views(pins@);
    let ghost expected = armed_effects(models, planned@);
    let mut effects: Vec<RecoveryTableEffect> = Vec::new();
    let mut i: usize = 0;
    while i < pins.len()
        invariant
            i <= pins.len(),
            models == views(pins@),
            plans_every_pin(models, planned@),
            expected == armed_effects(models, planned@),
            effects.len() == i,
            forall|j: int| 0 <= j < i ==> (#[trigger] effects@[j])@ == expected[j],
        decreases pins.len() - i,
    {
        assert(models[i as int] == pins@[i as int]@);
        assert(planned@.contains_key(models[i as int].identity));
        if let Some(transaction) = planned.get(pins[i].identity) {
            effects.push(
                RecoveryTableEffect {
                    identity: pins[i].identity,
                    table_key: pins[i].table_key.clone(),
                    planned_transaction: transaction.replicate(),
                    confirmed_transaction: None,
                },
            );
        }
        i += 1;
    }
    assert(views(effects@) =~= expected);
    effects
}

/// The sidecar of an optimize run.
pub open spec fn optimize_sidecar(ids: FreshIdsModel, tables: Seq<SidecarTablePinModel>) -> Result<
    RecoverySidecarModel,
    OmniErrorModel,
> {
    armed(
        "<new-optimize-sidecar-v9>"@,
        plain_sidecar(
            IDENTITY_AWARE_SIDECAR_SCHEMA_VERSION,
            SidecarKind::Optimize,
            ids,
            None,
            None,
            tables,
        ),
    )
}

/// Arms an optimize run with the given ids.
pub fn arm_optimize_sidecar_v9(ids: FreshIds, tables: Vec<SidecarTablePin>) -> (result: Result<
    RecoverySidecar,
    OmniError,
>)
    ensures
        arms(result, optimize_sidecar(ids@, views(tables@))),
{
    let sidecar: RecoverySidecar = new_unvalidated_sidecar(
        IDENTITY_AWARE_SIDECAR_SCHEMA_VERSION,
        SidecarKind::Optimize,
        &ids,
        None,
        None,
        tables,
    );
    arm("<new-optimize-sidecar-v9>", sidecar)
}

/// Arms an optimize run: its table pins are its whole plan.
pub fn new_optimize_sidecar_v9(tables: Vec<SidecarTablePin>) -> (result: Result<
    RecoverySidecar,
    OmniError,
>)
    ensures
        exists|ids: FreshIdsModel|
            ids.fresh() && arms(result, #[trigger] optimize_sidecar(ids, views(tables@))),
{
    let ids: FreshIds = FreshIds::generate();
    let ghost model = ids@;
    let result = arm_optimize_sidecar_v9(ids, tables);
    assert(arms(result, optimize_sidecar(model, views(tables@))));
    result
}

/// The sidecar of an ensure-indices run that fixes nothing but its rollback.
pub open spec fn loose_index_sidecar(
    ids: FreshIdsModel,
    branch: Option<Seq<char>>,
    tables: Seq<SidecarTablePinModel>,
) -> Result<RecoverySidecarModel, OmniErrorModel> {
    armed(
        "<new-ensure-indices-sidecar>"@,
        RecoverySidecarModel {
            ensure_indices_rollback_v6: Some(
                RecoveryEnsureIndicesRollbackV6Model {
                    rollback_graph_commit_id: ids.rollback_graph_commit_id,
                    rollback_audit_outcomes: None,
                },
            ),
            ..plain_sidecar(
                ENSURE_INDICES_ROLLBACK_SCHEMA_VERSION,
                SidecarKind::EnsureIndices,
                ids,
                branch,
                None,
                tables,
            )
        },
    )
}

/// Arms an ensure-indices run that fixes nothing but its rollback, with the given
/// ids.
pub fn arm_ensure_indices_sidecar_v6(
    ids: FreshIds,
    branch: Option<String>,
    tables: Vec<SidecarTablePin>,
) -> (result: Result<RecoverySidecar, OmniError>)
    ensures
        arms(result, loose_index_sidecar(ids@, opt_view(branch), views(tables@))),
{
    let mut sidecar: RecoverySidecar = new_unvalidated_sidecar(
        ENSURE_INDICES_ROLLBACK_SCHEMA_VERSION,
        SidecarKind::EnsureIndices,
        &ids,
        branch,
        None,
        tables,
    );
    sidecar.ensure_indices_rollback_v6 = Some(
        RecoveryEnsureIndicesRollbackV6 {
            rollback_graph_commit_id: ids.rollback_graph_commit_id,
            rollback_audit_outcomes: None,
        },
    );
    arm("<new-ensure-indices-sidecar>", sidecar)
}

/// Arms an ensure-indices run that fixes nothing but its rollback: its effects are
/// matched loosely, but a crash after its rollback cannot be mistaken for a
/// success.
pub fn new_ensure_indices_sidecar_v6(branch: Option<String>, tables: Vec<SidecarTablePin>) -> (result:
    Result<RecoverySidecar, OmniError>)
    ensures
        exists|ids: FreshIdsModel|
            ids.fresh() && arms(
                result,
                #[trigger] loose_index_sidecar(ids, opt_view(branch), views(tables@)),
            ),
{
    let ids: FreshIds = FreshIds::generate();
    let ghost model = ids@;
    let result = arm_ensure_indices_sidecar_v6(ids, branch, tables);
    assert(arms(result, loose_index_sidecar(model, opt_view(branch), views(tables@))));
    result
}

/// The sidecar of a mutation or load, or why it cannot be armed.
pub open spec fn occ_sidecar(
    ids: FreshIdsModel,
    kind: SidecarKind,
    branch: Option<Seq<char>>,
    actor_id: Option<Seq<char>>,
    tables: Seq<SidecarTablePinModel>,
    authority: RecoveryAuthorityTokenModel,
    lineage: RecoveryLineageIntentModel,
    planned: Map<TableIdentity, StagedTransactionIdentityModel>,
) -> Result<RecoverySidecarModel, OmniErrorModel> {
    if kind != SidecarKind::Mutation && kind != SidecarKind::Load {
        Err(
            internal(
                "new_occ_sidecar_v9 only supports Mutation/Load, found "@ + kind_text(kind),
            ),
        )
    } else if !plans_every_pin(tables, planned) {
        Err(
            internal(
                "new_occ_sidecar_v9 requires at least one pin and exactly one planned transaction per unique table identity"@,
            ),
        )
    } else {
        armed(
            "<new-occ-sidecar>"@,
            RecoverySidecarModel {
                protocol_v3: Some(
                    RecoveryProtocolV3Model {
                        authority,
                        lineage,
                        rollback_graph_commit_id: ids.rollback_graph_commit_id,
                        rollback_audit_outcomes: None,
                        effect_phase: RecoveryEffectPhase::Armed,
                        effects: armed_effects(tables, planned),
                        intended_delta: open_delta(tables),
                    },
                ),
                ..plain_sidecar(
                    IDENTITY_AWARE_SIDECAR_SCHEMA_VERSION,
                    kind,
                    ids,
                    branch,
                    actor_id,
                    tables,
                )
            },
        )
    }
}

/// Arms a mutation or load with the given ids.
pub fn arm_occ_sidecar_v9(
    ids: FreshIds,
    writer_kind: SidecarKind,
    branch: Option<String>,
    actor_id: Option<String>,
    tables: Vec<SidecarTablePin>,
    authority: RecoveryAuthorityToken,
    lineage: RecoveryLineageIntent,
    planned_transactions: &IdentityMap<StagedTransactionIdentity>,
) -> (result: Result<RecoverySidecar, OmniError>)
    ensures
        arms(
            result,
            occ_sidecar(
                ids@,
                writer_kind,
                opt_view(branch),
                opt_view(actor_id),
                views(tables@),
                authority@,
                lineage@,
                planned_transactions@,
            ),
        ),
{
    if writer_kind != SidecarKind::Mutation && writer_kind != SidecarKind::Load {
        let message: String = cat2(
            "new_occ_sidecar_v9 only supports Mutation/Load, found ",
            writer_kind.name(),
        );
        return Err(OmniError::manifest_internal(message.as_str()));
    }
    if !is_every_pin_planned(&tables, planned_transactions) {
        return Err(
            OmniError::manifest_internal(
                "new_occ_sidecar_v9 requires at least one pin and exactly one planned transaction per unique table identity",
            ),
        );
    }
    let effects: Vec<RecoveryTableEffect> = build_armed_effects(&tables, planned_transactions);
    let intended_delta: RecoveryManifestDelta = build_open_delta(&tables);
    let mut sidecar: RecoverySidecar = new_unvalidated_sidecar(
        IDENTITY_AWARE_SIDECAR_SCHEMA_VERSION,
        writer_kind,
        &ids,
        branch,
        actor_id,
        tables,
    );
    sidecar.protocol_v3 = Some(
        RecoveryProtocolV3 {
            authority,
            lineage,
            rollback_graph_commit_id: ids.rollback_graph_commit_id,
            rollback_audit_outcomes: None,
            effect_phase: RecoveryEffectPhase::Armed,
            effects,
            intended_delta,
        },
    );
    arm("<new-occ-sidecar>", sidecar)
}

/// Arms a mutation or load. The sidecar is an intent: every planned transaction and
/// every output slot is in it, and nothing that was achieved.
pub fn new_occ_sidecar_v9(
    writer_kind: SidecarKind,
    branch: Option<String>,
    actor_id: Option<String>,
    tables: Vec<SidecarTablePin>,
    authority: RecoveryAuthorityToken,
    lineage: RecoveryLineageIntent,
    planned_transactions: &IdentityMap<StagedTransactionIdentity>,
) -> (result: Result<RecoverySidecar, OmniError>)
    ensures
        exists|ids: FreshIdsModel|
            ids.fresh() && arms(
                result,
                #[trigger] occ_sidecar(
                    ids,
                    writer_kind,
                    opt_view(branch),
                    opt_view(actor_id),
                    views(tables@),
                    authority@,
                    lineage@,
                    planned_transactions@,
                ),
            ),
{
    let ids: FreshIds = FreshIds::generate();
    let ghost model = ids@;
    let result = arm_occ_sidecar_v9(
        ids,
        writer_kind,
        branch,
        actor_id,
        tables,
        authority,
        lineage,
        planned_transactions,
    );
    assert(arms(
        result,
        occ_sidecar(
            model,
            writer_kind,
            opt_view(branch),
            opt_view(actor_id),
            views(tables@),
            authority@,
            lineage@,
            planned_transactions@,
        ),
    ));
    result
}

/// The effects of an ensure-indices run, before any of them.
pub open spec fn armed_index_effects(
    pins: Seq<SidecarTablePinModel>,
    planned: Map<TableIdentity, StagedTransactionIdentityModel>,
    forks: Map<TableIdentity, u64>,
) -> Seq<RecoveryEnsureIndicesEffectModel> {
    Seq::new(
        pins.len(),
        |i: int|
            RecoveryEnsureIndicesEffectModel {
                identity: pins[i].identity,
                table_key: pins[i].table_key,
                planned_transaction: planned[pins[i].identity],
                source_fork_version: if forks.contains_key(pins[i].identity) {
                    Some(forks[pins[i].identity])
                } else {
                    None
                },
                confirmed_transaction: None,
                confirmed_branch_identifier: None,
            },
    )
}

/// Builds the effects of an ensure-indices run.
fn build_armed_index_effects(
    pins: &Vec<SidecarTablePin>,
    planned: &IdentityMap<StagedTransactionIdentity>,
    forks: &IdentityMap<u64>,
) -> (effects: Vec<RecoveryEnsureIndicesEffect>)
    requires
        plans_every_pin(views(pins@), planned@),
    ensures
        views(effects@) == armed_index_effects(views(pins@), planned@, forks@),
{
    let ghost models = views(pins@);
    let ghost expected = armed_index_effects(models, planned@, forks@);
    let mut effects: Vec<RecoveryEnsureIndicesEffect> = Vec::new();
    let mut i: usize = 0;
    while i < pins.len()
        invariant
            i <= pins.len(),
            models == views(pins@),
            plans_every_pin(models, planned@),
            expected == armed_index_effects(models, planned@, forks@),
            effects.len() == i,
            forall|j: int| 0 <= j < i ==> (#[trigger] effects@[j])@ == expected[j],
        decreases pins.len() - i,
    {
        assert(models[i as int] == pins@[i as int]@);
        assert(planned@.contains_key(models[i as int].identity));
        let source_fork_version: Option<u64> = match forks.get(pins[i].identity) {
            Some(version) => Some(*version),
            None => None,
        };
        if let Some(transaction) = planned.get(pins[i].identity) {
            effects.push(
                RecoveryEnsureIndicesEffect {
                    identity: pins[i].identity,
                    table_key: pins[i].table_key.clone(),
                    planned_transaction: transaction.replicate(),
                    source_fork_version,
                    confirmed_transaction: None,
                    confirmed_branch_identifier: None,
                },
            );
        }
        i += 1;
    }
    assert(views(effects@) =~= expected);
    effects
}

/// Whether every fork belongs to a pinned table.
pub open spec fn forks_pinned(
    pins: Seq<SidecarTablePinModel>,
    forks: Map<TableIdentity, u64>,
) -> bool {
    forall|identity: TableIdentity| #[trigger]
        forks.contains_key(identity) ==> identities::<SidecarTablePin>(pins).contains(identity)
}

/// Whether every fork belongs to a pinned table.
fn are_forks_pinned(pins: &Vec<SidecarTablePin>, forks: &IdentityMap<u64>) -> (answer: bool)
    ensures
        answer == forks_pinned(views(pins@), forks@),
{
    let keys: Vec<TableIdentity> = forks.keys();
    let ghost ids = identities::<SidecarTablePin>(views(pins@));
    let mut i: usize = 0;
    while i < keys.len()
        invariant
            i <= keys.len(),
            ids == identities::<SidecarTablePin>(views(pins@)),
            forall|identity: TableIdentity|
                #[trigger] keys@.contains(identity) <==> forks@.contains_key(identity),
            forall|j: int| 0 <= j < i ==> ids.contains(#[trigger] keys@[j]),
        decreases keys.len() - i,
    {
        if !has_identity(pins, keys[i]) {
            assert(keys@.contains(keys@[i as int]));
            return false;
        }
        i += 1;
    }
    assert forall|identity: TableIdentity| #[trigger] forks@.contains_key(identity) implies
        ids.contains(identity) by {
        assert(keys@.contains(identity));
    }
    true
}

/// The sidecar of an ensure-indices run, or why it cannot be armed.
pub open spec fn index_sidecar(
    ids: FreshIdsModel,
    branch: Option<Seq<char>>,
    actor_id: Option<Seq<char>>,
    tables: Seq<SidecarTablePinModel>,
    authority: RecoveryAuthorityTokenModel,
    lineage: RecoveryLineageIntentModel,
    planned: Map<TableIdentity, StagedTransactionIdentityModel>,
    forks: Map<TableIdentity, u64>,
) -> Result<RecoverySidecarModel, OmniErrorModel> {
    if !plans_every_pin(tables, planned) || !forks_pinned(tables, forks) {
        Err(
            internal(
                "new_ensure_indices_sidecar_v9 requires one planned transaction per unique table pin and first-touch keys drawn from those pins"@,
            ),
        )
    } else {
        armed(
            "<new-ensure-indices-v9-sidecar>"@,
            RecoverySidecarModel {
                protocol_v8: Some(
                    RecoveryProtocolV8Model {
                        authority,
                        lineage,
                        rollback_graph_commit_id: ids.rollback_graph_commit_id,
                        rollback_audit_outcomes: None,
                        effect_phase: RecoveryEffectPhase::Armed,
                        effects: armed_index_effects(tables, planned, forks),
                        intended_delta: open_delta(tables),
                    },
                ),
                ..plain_sidecar(
                    IDENTITY_AWARE_SIDECAR_SCHEMA_VERSION,
                    SidecarKind::EnsureIndices,
                    ids,
                    branch,
                    actor_id,
                    tables,
                )
            },
        )
    }
}

/// Arms an ensure-indices run with the given ids.
pub fn arm_ensure_indices_sidecar_v9(
    ids: FreshIds,
    branch: Option<String>,
    actor_id: Option<String>,
    tables: Vec<SidecarTablePin>,
    authority: RecoveryAuthorityToken,
    lineage: RecoveryLineageIntent,
    planned_transactions: &IdentityMap<StagedTransactionIdentity>,
    first_touch_source_versions: &IdentityMap<u64>,
) -> (result: Result<RecoverySidecar, OmniError>)
    ensures
        arms(
            result,
            index_sidecar(
                ids@,
                opt_view(branch),
                opt_view(actor_id),
                views(tables@),
                authority@,
                lineage@,
                planned_transactions@,
                first_touch_source_versions@,
            ),
        ),
{
    if !is_every_pin_planned(&tables, planned_transactions) || !are_forks_pinned(
        &tables,
        first_touch_source_versions,
    ) {
        return Err(
            OmniError::manifest_internal(
                "new_ensure_indices_sidecar_v9 requires one planned transaction per unique table pin and first-touch keys drawn from those pins",
            ),
        );
    }
    let effects: Vec<RecoveryEnsureIndicesEffect> = build_armed_index_effects(
        &tables,
        planned_transactions,
        first_touch_source_versions,
    );
    let intended_delta: RecoveryManifestDelta = build_open_delta(&tables);
    let mut sidecar: RecoverySidecar = new_unvalidated_sidecar(
        IDENTITY_AWARE_SIDECAR_SCHEMA_VERSION,
        SidecarKind::EnsureIndices,
        &ids,
        branch,
        actor_id,
        tables,
    );
    sidecar.protocol_v8 = Some(
        RecoveryProtocolV8 {
            authority,
            lineage,
            rollback_graph_commit_id: ids.rollback_graph_commit_id,
            rollback_audit_outcomes: None,
            effect_phase: RecoveryEffectPhase::Armed,
            effects,
            intended_delta,
        },
    );
    arm("<new-ensure-indices-v9-sidecar>", sidecar)
}

/// Arms an ensure-indices run. `first_touch_source_versions` holds the tables whose
/// target branch is forked once the sidecar is durable.
pub fn new_ensure_indices_sidecar_v9(
    branch: Option<String>,
    actor_id: Option<String>,
    tables: Vec<SidecarTablePin>,
    authority: RecoveryAuthorityToken,
    lineage: RecoveryLineageIntent,
    planned_transactions: &IdentityMap<StagedTransactionIdentity>,
    first_touch_source_versions: &IdentityMap<u64>,
) -> (result: Result<RecoverySidecar, OmniError>)
    ensures
        exists|ids: FreshIdsModel|
            ids.fresh() && arms(
                result,
                #[trigger] index_sidecar(
                    ids,
                    opt_view(branch),
                    opt_view(actor_id),
                    views(tables@),
                    authority@,
                    lineage@,
                    planned_transactions@,
                    first_touch_source_versions@,
                ),
            ),
{
    let ids: FreshIds = FreshIds::generate();
    let ghost model = ids@;
    let result = arm_ensure_indices_sidecar_v9(
        ids,
        branch,
        actor_id,
        tables,
        authority,
        lineage,
        planned_transactions,
        first_touch_source_versions,
    );
    assert(arms(
        result,
        index_sidecar(
            model,
            opt_view(branch),
            opt_view(actor_id),
            views(tables@),
            authority@,
            lineage@,
            planned_transactions@,
            first_touch_source_versions@,
        ),
    ));
    result
}

/// The sidecar of a schema apply.
pub open spec fn schema_sidecar(
    ids: FreshIdsModel,
    actor_id: Option<Seq<char>>,
    tables: Seq<SidecarTablePinModel>,
    authority: RecoveryAuthorityTokenModel,
    lineage: RecoveryLineageIntentModel,
    effects: Seq<RecoverySchemaApplyEffectModel>,
    intended_delta: RecoveryManifestDeltaModel,
    target_schema_ir_hash: Seq<char>,
) -> Result<RecoverySidecarModel, OmniErrorModel> {
    armed(
        "<new-schema-apply-v9-sidecar>"@,
        RecoverySidecarModel {
            protocol_v7: Some(
                RecoveryProtocolV7Model {
                    authority,
                    lineage,
                    rollback_graph_commit_id: ids.rollback_graph_commit_id,
                    rollback_audit_outcomes: None,
                    target_schema_ir_hash,
                    effect_phase: RecoveryEffectPhase::Armed,
                    effects,
                    intended_delta,
                },
            ),
            ..plain_sidecar(
                IDENTITY_AWARE_SIDECAR_SCHEMA_VERSION,
                SidecarKind::SchemaApply,
                ids,
                None,
                actor_id,
                tables,
            )
        },
    )
}

/// Arms a schema apply with the given ids.
pub fn arm_schema_apply_sidecar_v9(
    ids: FreshIds,
    actor_id: Option<String>,
    tables: Vec<SidecarTablePin>,
    authority: RecoveryAuthorityToken,
    lineage: RecoveryLineageIntent,
    effects: Vec<RecoverySchemaApplyEffect>,
    intended_delta: RecoveryManifestDelta,
    target_schema_ir_hash: String,
) -> (result: Result<RecoverySidecar, OmniError>)
    ensures
        arms(
            result,
            schema_sidecar(
                ids@,
                opt_view(actor_id),
                views(tables@),
                authority@,
                lineage@,
                views(effects@),
                intended_delta@,
                target_schema_ir_hash@,
            ),
        ),
{
    let mut sidecar: RecoverySidecar = new_unvalidated_sidecar(
        IDENTITY_AWARE_SIDECAR_SCHEMA_VERSION,
        SidecarKind::SchemaApply,
        &ids,
        None,
        actor_id,
        tables,
    );
    sidecar.protocol_v7 = Some(
        RecoveryProtocolV7 {
            authority,
            lineage,
            rollback_graph_commit_id: ids.rollback_graph_commit_id,
            rollback_audit_outcomes: None,
            target_schema_ir_hash,
            effect_phase: RecoveryEffectPhase::Armed,
            effects,
            intended_delta,
        },
    );
    arm("<new-schema-apply-v9-sidecar>", sidecar)
}

/// Arms a schema apply. One that only changes metadata has no pins and no effects.
pub fn new_schema_apply_sidecar_v9(
    actor_id: Option<String>,
    tables: Vec<SidecarTablePin>,
    authority: RecoveryAuthorityToken,
    lineage: RecoveryLineageIntent,
    effects: Vec<RecoverySchemaApplyEffect>,
    intended_delta: RecoveryManifestDelta,
    target_schema_ir_hash: String,
) -> (result: Result<RecoverySidecar, OmniError>)
    ensures
        exists|ids: FreshIdsModel|
            ids.fresh() && arms(
                result,
                #[trigger] schema_sidecar(
                    ids,
                    opt_view(actor_id),
                    views(tables@),
                    authority@,
                    lineage@,
                    views(effects@),
                    intended_delta@,
                    target_schema_ir_hash@,
                ),
            ),
{
    let ids: FreshIds = FreshIds::generate();
    let ghost model = ids@;
    let result = arm_schema_apply_sidecar_v9(
        ids,
        actor_id,
        tables,
        authority,
        lineage,
        effects,
        intended_delta,
        target_schema_ir_hash,
    );
    assert(arms(
        result,
        schema_sidecar(
            model,
            opt_view(actor_id),
            views(tables@),
            authority@,
            lineage@,
            views(effects@),
            intended_delta@,
            target_schema_ir_hash@,
        ),
    ));
    result
}

/// The sidecar of a branch merge.
pub open spec fn merge_sidecar(
    ids: FreshIdsModel,
    branch: Option<Seq<char>>,
    actor_id: Option<Seq<char>>,
    tables: Seq<SidecarTablePinModel>,
    authority: RecoveryAuthorityTokenModel,
    lineage: RecoveryLineageIntentModel,
    effects: Seq<RecoveryBranchMergeEffectModel>,
    intended_delta: RecoveryManifestDeltaModel,
) -> Result<RecoverySidecarModel, OmniErrorModel> {
    armed(
        "<new-branch-merge-sidecar>"@,
        RecoverySidecarModel {
            protocol_v4: Some(
                RecoveryProtocolV4Model {
                    authority,
                    lineage,
                    rollback_graph_commit_id: ids.rollback_graph_commit_id,
                    rollback_audit_outcomes: None,
                    effect_phase: RecoveryEffectPhase::Armed,
                    effects,
                    intended_delta,
                },
            ),
            ..plain_sidecar(
                IDENTITY_AWARE_SIDECAR_SCHEMA_VERSION,
                SidecarKind::BranchMerge,
                ids,
                branch,
                actor_id,
                tables,
            )
        },
    )
}

/// Arms a branch merge with the given ids.
pub fn arm_branch_merge_sidecar_v9(
    ids: FreshIds,
    branch: Option<String>,
    actor_id: Option<String>,
    tables: Vec<SidecarTablePin>,
    authority: RecoveryAuthorityToken,
    lineage: RecoveryLineageIntent,
    effects: Vec<RecoveryBranchMergeEffect>,
    intended_delta: RecoveryManifestDelta,
) -> (result: Result<RecoverySidecar, OmniError>)
    ensures
        arms(
            result,
            merge_sidecar(
                ids@,
                opt_view(branch),
                opt_view(actor_id),
                views(tables@),
                authority@,
                lineage@,
                views(effects@),
                intended_delta@,
            ),
        ),
{
    let mut sidecar: RecoverySidecar = new_unvalidated_sidecar(
        IDENTITY_AWARE_SIDECAR_SCHEMA_VERSION,
        SidecarKind::BranchMerge,
        &ids,
        branch,
        actor_id,
        tables,
    );
    sidecar.protocol_v4 = Some(
        RecoveryProtocolV4 {
            authority,
            lineage,
            rollback_graph_commit_id: ids.rollback_graph_commit_id,
            rollback_audit_outcomes: None,
            effect_phase: RecoveryEffectPhase::Armed,
            effects,
            intended_delta,
        },
    );
    arm("<new-branch-merge-sidecar>", sidecar)
}

/// Arms a branch merge. Its manifest delta may hold more tables than its pins and
/// effects: those whose update only points elsewhere.
pub fn new_branch_merge_sidecar_v9(
    branch: Option<String>,
    actor_id: Option<String>,
    tables: Vec<SidecarTablePin>,
    authority: RecoveryAuthorityToken,
    lineage: RecoveryLineageIntent,
    effects: Vec<RecoveryBranchMergeEffect>,
    intended_delta: RecoveryManifestDelta,
) -> (result: Result<RecoverySidecar, OmniError>)
    ensures
        exists|ids: FreshIdsModel|
            ids.fresh() && arms(
                result,
                #[trigger] merge_sidecar(
                    ids,
                    opt_view(branch),
                    opt_view(actor_id),
                    views(tables@),
                    authority@,
                    lineage@,
                    views(effects@),
                    intended_delta@,
                ),
            ),
{
    let ids: FreshIds = FreshIds::generate();
    let ghost model = ids@;
    let result = arm_branch_merge_sidecar_v9(
        ids,
        branch,
        actor_id,
        tables,
        authority,
        lineage,
        effects,
        intended_delta,
    );
    assert(arms(
        result,
        merge_sidecar(
            model,
            opt_view(branch),
            opt_view(actor_id),
            views(tables@),
            authority@,
            lineage@,
            views(effects@),
            intended_delta@,
        ),
    ));
    result
}

} // verus!
