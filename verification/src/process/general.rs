//! The recovery of mutations, loads and optimize runs, and of every generation
//! that is classified loosely.

use vstd::prelude::*;

use crate::classify::{
    classes, classes_text, classes_to_text, collect_classes, decide, decision, ClassifiedTable,
    SidecarDecision, TableClassification,
};
use crate::error::{internal, OmniError, OmniErrorModel};
use crate::process::step::{
    refuse, refuse_step, roll_back, roll_back_step, summarize, summary, RecoveryStep,
    RecoveryStepModel, Summary,
};
use crate::sidecar::{
    RecoveryAuthorityToken, RecoveryAuthorityTokenModel, RecoveryEffectPhase, RecoveryMode,
    RecoveryProtocolV3, RecoveryProtocolV3Model, RecoverySidecar, RecoverySidecarModel, SidecarKind,
    IDENTITY_AWARE_SIDECAR_SCHEMA_VERSION, SCHEMA_APPLY_CONFIRMATION_SCHEMA_VERSION,
};
use crate::store::{sidecar_uri, uri_of};
use crate::text::{cat3, cat7};
use crate::value::{opt_view, Same};

verus! {

/// Which recovery a sidecar takes.
#[derive(Clone, Copy, Debug, PartialEq, Eq, Structural)]
pub enum RecoveryRoute {
    /// The exact recovery of an ensure-indices run.
    EnsureIndices,
    /// The exact recovery of a schema apply.
    SchemaApply,
    /// The exact recovery of a branch merge.
    BranchMerge,
    /// The recovery by classification.
    General,
}

/// Which recovery a sidecar takes. In the newest generation the writer kind
/// decides; before, the payload does.
pub open spec fn route(sidecar: RecoverySidecarModel) -> RecoveryRoute {
    if sidecar.schema_version == IDENTITY_AWARE_SIDECAR_SCHEMA_VERSION {
        match sidecar.writer_kind {
            SidecarKind::EnsureIndices => RecoveryRoute::EnsureIndices,
            SidecarKind::SchemaApply => RecoveryRoute::SchemaApply,
            SidecarKind::BranchMerge => RecoveryRoute::BranchMerge,
            SidecarKind::Mutation | SidecarKind::Load | SidecarKind::Optimize =>
                RecoveryRoute::General,
        }
    } else if sidecar.protocol_v8 is Some {
        RecoveryRoute::EnsureIndices
    } else if sidecar.protocol_v7 is Some {
        RecoveryRoute::SchemaApply
    } else if sidecar.protocol_v4 is Some {
        RecoveryRoute::BranchMerge
    } else {
        RecoveryRoute::General
    }
}

/// Which recovery a sidecar takes.
pub fn recovery_route(sidecar: &RecoverySidecar) -> (taken: RecoveryRoute)
    ensures
        taken == route(sidecar@),
{
    if sidecar.schema_version == IDENTITY_AWARE_SIDECAR_SCHEMA_VERSION {
        return match sidecar.writer_kind {
            SidecarKind::EnsureIndices => RecoveryRoute::EnsureIndices,
            SidecarKind::SchemaApply => RecoveryRoute::SchemaApply,
            SidecarKind::BranchMerge => RecoveryRoute::BranchMerge,
            SidecarKind::Mutation | SidecarKind::Load | SidecarKind::Optimize =>
                RecoveryRoute::General,
        };
    }
    if sidecar.protocol_v8.is_some() {
        RecoveryRoute::EnsureIndices
    } else if sidecar.protocol_v7.is_some() {
        RecoveryRoute::SchemaApply
    } else if sidecar.protocol_v4.is_some() {
        RecoveryRoute::BranchMerge
    } else {
        RecoveryRoute::General
    }
}

/// Whether the visible lineage has to be searched for a fixed outcome of the
/// attempt before its tables are looked at: the original commit or the rollback
/// of a mutation or load.
pub fn looks_for_exact_outcome(sidecar: &RecoverySidecar) -> (answer: bool)
    ensures
        answer == (route(sidecar@) == RecoveryRoute::General && sidecar@.protocol_v3 is Some && (
        sidecar.schema_version == IDENTITY_AWARE_SIDECAR_SCHEMA_VERSION ==> sidecar.writer_kind
            != SidecarKind::Optimize)),
{
    let general: bool = match recovery_route(sidecar) {
        RecoveryRoute::General => true,
        _ => false,
    };
    general && sidecar.protocol_v3.is_some() && (sidecar.schema_version
        != IDENTITY_AWARE_SIDECAR_SCHEMA_VERSION || sidecar.writer_kind != SidecarKind::Optimize)
}

/// The step of an exact mutation or load that does not depend on its classes, if
/// there is one. `live` is the live authority, once read.
pub open spec fn exact_step(
    sidecar: RecoverySidecarModel,
    payload: RecoveryProtocolV3Model,
    facts: Summary,
    live: Option<RecoveryAuthorityTokenModel>,
    mode: RecoveryMode,
) -> Option<RecoveryStepModel> {
    let id = sidecar.operation_id;
    match live {
        None => Some(RecoveryStepModel::ReadLiveAuthority),
        Some(authority) => if facts.unverifiable {
            Some(
                refuse(
                    mode,
                    "OCC recovery sidecar '"@ + id
                        + "' cannot verify one or more planned Lance transaction files; refusing destructive recovery"@,
                ),
            )
        } else if !facts.own_effect {
            if mode == RecoveryMode::Full {
                Some(RecoveryStepModel::DiscardForks)
            } else if payload.effect_phase == RecoveryEffectPhase::Armed
                || facts.unpublished_fork {
                Some(RecoveryStepModel::Defer)
            } else {
                Some(RecoveryStepModel::DeleteSidecar)
            }
        } else if authority.branch_identifier != payload.authority.branch_identifier {
            Some(
                refuse(
                    mode,
                    "OCC recovery sidecar '"@ + id
                        + "' targets a branch incarnation that was deleted and recreated; refusing to restore through the reused branch name"@,
                ),
            )
        } else if facts.own_effect_buried || facts.ambiguous_advance || facts.drift {
            Some(
                refuse(
                    mode,
                    "OCC recovery sidecar '"@ + id
                        + "' is interleaved with a foreign table/manifest advance; refusing a restore that could discard another writer"@,
                ),
            )
        } else if authority != payload.authority {
            Some(roll_back(mode))
        } else {
            None
        },
    }
}

/// Whether the schema that a schema apply promotes is live, or why that cannot be
/// told.
pub open spec fn target_live(sidecar: RecoverySidecarModel, live_schema: Seq<char>) -> Result<
    bool,
    OmniErrorModel,
> {
    match sidecar.schema_apply_target_schema_ir_hash {
        Some(target) => Ok(live_schema == target),
        None => Err(
            internal(
                "SchemaApply sidecar '"@ + sidecar.operation_id
                    + "' has no target schema identity"@,
            ),
        ),
    }
}

/// The step when every table stands where the manifest does, and the manifest
/// moved on since the attempt started.
pub open spec fn aligned_step(
    sidecar: RecoverySidecarModel,
    live_schema: Option<Seq<char>>,
    mode: RecoveryMode,
) -> RecoveryStepModel {
    let confirms = sidecar.writer_kind == SidecarKind::SchemaApply && sidecar.schema_version
        == SCHEMA_APPLY_CONFIRMATION_SCHEMA_VERSION;
    let live = if confirms && live_schema is Some {
        target_live(sidecar, live_schema->0)
    } else {
        Ok(true)
    };
    if confirms && live_schema is None {
        RecoveryStepModel::ReadLiveSchema
    } else if live is Err {
        RecoveryStepModel::Refuse(live->Err_0)
    } else if !live->Ok_0 {
        if sidecar.schema_apply_manifest_published {
            refuse(
                mode,
                "SchemaApply sidecar '"@ + sidecar.operation_id
                    + "' is manifest-aligned, but the live schema identity does not match its confirmed target"@,
            )
        } else {
            roll_back(mode)
        }
    } else if sidecar.protocol_v3 is Some {
        refuse(
            mode,
            "OCC recovery sidecar '"@ + sidecar.operation_id
                + "' is manifest-aligned but neither fixed outcome id is visible; operator review required"@,
        )
    } else {
        RecoveryStepModel::RecordRolledForward
    }
}

/// The step when every table reached its goal. A schema apply also needs its
/// schema promoted.
pub open spec fn reached_step(
    sidecar: RecoverySidecarModel,
    schema_promoted: bool,
    live_schema: Option<Seq<char>>,
    mode: RecoveryMode,
) -> RecoveryStepModel {
    if sidecar.writer_kind != SidecarKind::SchemaApply || schema_promoted {
        RecoveryStepModel::RollForward
    } else if sidecar.schema_version != SCHEMA_APPLY_CONFIRMATION_SCHEMA_VERSION {
        roll_back(mode)
    } else {
        match live_schema {
            None => RecoveryStepModel::ReadLiveSchema,
            Some(hash) => match target_live(sidecar, hash) {
                Err(error) => RecoveryStepModel::Refuse(error),
                Ok(live) => if live && sidecar.schema_apply_manifest_published {
                    RecoveryStepModel::RecordRolledForward
                } else if live {
                    RecoveryStepModel::RollForward
                } else if sidecar.schema_apply_manifest_published {
                    refuse(
                        mode,
                        "SchemaApply sidecar '"@ + sidecar.operation_id
                            + "' confirms manifest publish, but the live schema identity does not match its target; refusing to guess whether schema promotion completed"@,
                    )
                } else {
                    roll_back(mode)
                },
            },
        }
    }
}

/// The step that the classes of the tables call for.
pub open spec fn classified_step(
    root: Seq<char>,
    sidecar: RecoverySidecarModel,
    states: Seq<ClassifiedTable>,
    schema_promoted: bool,
    live_schema: Option<Seq<char>>,
    mode: RecoveryMode,
) -> RecoveryStepModel {
    let facts = summary(sidecar.tables, states);
    match decision(classes(states)) {
        SidecarDecision::Abort => refuse(
            mode,
            "recovery sidecar '"@ + sidecar.operation_id
                + "' has invariant violation; refusing to act — operator review required (sidecar at '"@
                + uri_of(root, sidecar.operation_id) + "', classifications: "@ + classes_text(
                states,
            ) + ")"@,
        ),
        SidecarDecision::RollBack => if facts.all_no_movement && facts.advanced {
            aligned_step(sidecar, live_schema, mode)
        } else if facts.all_no_movement && sidecar.writer_kind == SidecarKind::EnsureIndices {
            match mode {
                RecoveryMode::RollForwardOnly => RecoveryStepModel::Defer,
                RecoveryMode::Full => RecoveryStepModel::DiscardForks,
            }
        } else {
            roll_back(mode)
        },
        SidecarDecision::RollForward => reached_step(sidecar, schema_promoted, live_schema, mode),
    }
}

/// The next step of a sidecar that is recovered by classification.
pub open spec fn general_step(
    root: Seq<char>,
    sidecar: RecoverySidecarModel,
    states: Seq<ClassifiedTable>,
    live: Option<RecoveryAuthorityTokenModel>,
    schema_promoted: bool,
    live_schema: Option<Seq<char>>,
    mode: RecoveryMode,
) -> RecoveryStepModel {
    let settled = match sidecar.protocol_v3 {
        Some(payload) => exact_step(sidecar, payload, summary(sidecar.tables, states), live, mode),
        None => None,
    };
    match settled {
        Some(step) => step,
        None => classified_step(root, sidecar, states, schema_promoted, live_schema, mode),
    }
}

/// The step of an exact mutation or load that does not depend on its classes.
fn settle_exact(
    sidecar: &RecoverySidecar,
    payload: &RecoveryProtocolV3,
    facts: &Summary,
    live: &Option<RecoveryAuthorityToken>,
    mode: RecoveryMode,
) -> (step: Option<RecoveryStep>)
    ensures
        opt_view(step) == exact_step(sidecar@, payload@, *facts, opt_view(*live), mode),
{
    let id: &str = sidecar.operation_id.as_str();
    let authority: &RecoveryAuthorityToken = match live {
        Some(authority) => authority,
        None => {
            return Some(RecoveryStep::ReadLiveAuthority);
        },
    };
    if facts.unverifiable {
        let message: String = cat3(
            "OCC recovery sidecar '",
            id,
            "' cannot verify one or more planned Lance transaction files; refusing destructive recovery",
        );
        return Some(refuse_step(mode, message.as_str()));
    }
    if !facts.own_effect {
        if mode == RecoveryMode::Full {
            return Some(RecoveryStep::DiscardForks);
        }
        if payload.effect_phase == RecoveryEffectPhase::Armed || facts.unpublished_fork {
            return Some(RecoveryStep::Defer);
        }
        return Some(RecoveryStep::DeleteSidecar);
    }
    if !authority.branch_identifier.same(&payload.authority.branch_identifier) {
        let message: String = cat3(
            "OCC recovery sidecar '",
            id,
            "' targets a branch incarnation that was deleted and recreated; refusing to restore through the reused branch name",
        );
        return Some(refuse_step(mode, message.as_str()));
    }
    if facts.own_effect_buried || facts.ambiguous_advance || facts.drift {
        let message: String = cat3(
            "OCC recovery sidecar '",
            id,
            "' is interleaved with a foreign table/manifest advance; refusing a restore that could discard another writer",
        );
        return Some(refuse_step(mode, message.as_str()));
    }
    if !authority.same(&payload.authority) {
        return Some(roll_back_step(mode));
    }
    None
}

/// Whether the schema that a schema apply promotes is live.
pub fn schema_apply_target_identity_is_live(
    sidecar: &RecoverySidecar,
    live_schema: &String,
) -> (result: Result<bool, OmniError>)
    ensures
        match target_live(sidecar@, live_schema@) {
            Ok(live) => result == Ok::<bool, OmniError>(live),
            Err(error) => result is Err && result->Err_0@ == error,
        },
{
    match &sidecar.schema_apply_target_schema_ir_hash {
        Some(target) => Ok(*live_schema == *target),
        None => {
            let message: String = cat3(
                "SchemaApply sidecar '",
                sidecar.operation_id.as_str(),
                "' has no target schema identity",
            );
            Err(OmniError::manifest_internal(message.as_str()))
        },
    }
}

/// The step when every table stands where the manifest does.
fn settle_aligned(sidecar: &RecoverySidecar, live_schema: &Option<String>, mode: RecoveryMode) -> (step:
    RecoveryStep)
    ensures
        step@ == aligned_step(sidecar@, opt_view(*live_schema), mode),
{
    if sidecar.writer_kind == SidecarKind::SchemaApply && sidecar.schema_version
        == SCHEMA_APPLY_CONFIRMATION_SCHEMA_VERSION {
        let hash: &String = match live_schema {
            Some(hash) => hash,
            None => {
                return RecoveryStep::ReadLiveSchema;
            },
        };
        match schema_apply_target_identity_is_live(sidecar, hash) {
            Err(error) => {
                return RecoveryStep::Refuse(error);
            },
            Ok(live) => {
                if !live {
                    if sidecar.schema_apply_manifest_published {
                        let message: String = cat3(
                            "SchemaApply sidecar '",
                            sidecar.operation_id.as_str(),
                            "' is manifest-aligned, but the live schema identity does not match its confirmed target",
                        );
                        return refuse_step(mode, message.as_str());
                    }
                    return roll_back_step(mode);
                }
            },
        }
    }
    if sidecar.protocol_v3.is_some() {
        let message: String = cat3(
            "OCC recovery sidecar '",
            sidecar.operation_id.as_str(),
            "' is manifest-aligned but neither fixed outcome id is visible; operator review required",
        );
        return refuse_step(mode, message.as_str());
    }
    RecoveryStep::RecordRolledForward
}

/// The step when every table reached its goal.
fn settle_reached(
    sidecar: &RecoverySidecar,
    schema_promoted: bool,
    live_schema: &Option<String>,
    mode: RecoveryMode,
) -> (step: RecoveryStep)
    ensures
        step@ == reached_step(sidecar@, schema_promoted, opt_view(*live_schema), mode),
{
    if sidecar.writer_kind != SidecarKind::SchemaApply || schema_promoted {
        return RecoveryStep::RollForward;
    }
    if sidecar.schema_version != SCHEMA_APPLY_CONFIRMATION_SCHEMA_VERSION {
        return roll_back_step(mode);
    }
    let hash: &String = match live_schema {
        Some(hash) => hash,
        None => {
            return RecoveryStep::ReadLiveSchema;
        },
    };
    match schema_apply_target_identity_is_live(sidecar, hash) {
        Err(error) => RecoveryStep::Refuse(error),
        Ok(live) => {
            if live {
                if sidecar.schema_apply_manifest_published {
                    return RecoveryStep::RecordRolledForward;
                }
                return RecoveryStep::RollForward;
            }
            if sidecar.schema_apply_manifest_published {
                let message: String = cat3(
                    "SchemaApply sidecar '",
                    sidecar.operation_id.as_str(),
                    "' confirms manifest publish, but the live schema identity does not match its target; refusing to guess whether schema promotion completed",
                );
                return refuse_step(mode, message.as_str());
            }
            roll_back_step(mode)
        },
    }
}

/// Decides the next step of a sidecar that is recovered by classification, once
/// no fixed outcome of it is visible. `live` is the live authority of its branch
/// and `live_schema` the hash of the live schema, each once read;
/// `schema_promoted` tells whether this pass promoted the staged schema.
pub fn process_sidecar(
    root_uri: &str,
    sidecar: &RecoverySidecar,
    states: &Vec<ClassifiedTable>,
    live: &Option<RecoveryAuthorityToken>,
    schema_promoted: bool,
    live_schema: &Option<String>,
    mode: RecoveryMode,
) -> (step: RecoveryStep)
    requires
        states.len() == sidecar.tables.len(),
    ensures
        step@ == general_step(
            root_uri@,
            sidecar@,
            states@,
            opt_view(*live),
            schema_promoted,
            opt_view(*live_schema),
            mode,
        ),
{
    let facts: Summary = summarize(&sidecar.tables, states);
    if let Some(payload) = &sidecar.protocol_v3 {
        if let Some(step) = settle_exact(sidecar, payload, &facts, live, mode) {
            return step;
        }
    }
    let list: Vec<TableClassification> = collect_classes(states);
    match decide(list.as_slice()) {
        SidecarDecision::Abort => {
            let uri: String = sidecar_uri(root_uri, sidecar.operation_id.as_str());
            let text: String = classes_to_text(states);
            let message: String = cat7(
                "recovery sidecar '",
                sidecar.operation_id.as_str(),
                "' has invariant violation; refusing to act — operator review required (sidecar at '",
                uri.as_str(),
                "', classifications: ",
                text.as_str(),
                ")",
            );
            refuse_step(mode, message.as_str())
        },
        SidecarDecision::RollBack => {
            if facts.all_no_movement && facts.advanced {
                return settle_aligned(sidecar, live_schema, mode);
            }
            if facts.all_no_movement && sidecar.writer_kind == SidecarKind::EnsureIndices {
                return match mode {
                    RecoveryMode::RollForwardOnly => RecoveryStep::Defer,
                    RecoveryMode::Full => RecoveryStep::DiscardForks,
                };
            }
            roll_back_step(mode)
        },
        SidecarDecision::RollForward => settle_reached(sidecar, schema_promoted, live_schema, mode),
    }
}

/// Why the intent of a sidecar cannot be retired without recovery.
pub open spec fn effect_free_fault(sidecar: RecoverySidecarModel) -> Option<OmniErrorModel> {
    if sidecar.schema_version != IDENTITY_AWARE_SIDECAR_SCHEMA_VERSION || (sidecar.writer_kind
        != SidecarKind::Mutation && sidecar.writer_kind != SidecarKind::Load) {
        Some(
            internal(
                "effect-free finalization requires an identity-aware mutation/load sidecar"@,
            ),
        )
    } else if sidecar.protocol_v3 is None {
        Some(internal("effect-free finalization requires an exact OCC protocol payload"@))
    } else {
        None
    }
}

/// Whether a mutation or load is armed still, so that it may turn out to have no
/// effect. Its tables have to be looked at only then.
pub fn may_be_effect_free(sidecar: &RecoverySidecar) -> (result: Result<bool, OmniError>)
    ensures
        match effect_free_fault(sidecar@) {
            Some(error) => result is Err && result->Err_0@ == error,
            None => result == Ok::<bool, OmniError>(
                sidecar@.protocol_v3->0.effect_phase == RecoveryEffectPhase::Armed,
            ),
        },
{
    if sidecar.schema_version != IDENTITY_AWARE_SIDECAR_SCHEMA_VERSION || (sidecar.writer_kind
        != SidecarKind::Mutation && sidecar.writer_kind != SidecarKind::Load) {
        return Err(
            OmniError::manifest_internal(
                "effect-free finalization requires an identity-aware mutation/load sidecar",
            ),
        );
    }
    match &sidecar.protocol_v3 {
        Some(payload) => Ok(payload.effect_phase == RecoveryEffectPhase::Armed),
        None => Err(
            OmniError::manifest_internal(
                "effect-free finalization requires an exact OCC protocol payload",
            ),
        ),
    }
}

/// Whether an armed mutation or load may be retired without recovery: none of its
/// tables holds an effect of it. `true` calls for removing its forked branches and
/// then its sidecar.
pub fn finalize_effect_free_occ_sidecar(
    sidecar: &RecoverySidecar,
    states: &Vec<ClassifiedTable>,
) -> (result: Result<bool, OmniError>)
    requires
        states.len() == sidecar.tables.len(),
    ensures
        match effect_free_fault(sidecar@) {
            Some(error) => result is Err && result->Err_0@ == error,
            None => result == Ok::<bool, OmniError>(
                sidecar@.protocol_v3->0.effect_phase == RecoveryEffectPhase::Armed && !summary(
                    sidecar@.tables,
                    states@,
                ).own_effect && !summary(sidecar@.tables, states@).unverifiable,
            ),
        },
{
    match may_be_effect_free(sidecar) {
        Ok(true) => {
            let facts: Summary = summarize(&sidecar.tables, states);
            Ok(!facts.own_effect && !facts.unverifiable)
        },
        Ok(false) => Ok(false),
        Err(error) => Err(error),
    }
}

/// What follows when an exact attempt could not be published and no fixed outcome
/// of it is visible.
#[derive(Clone, Copy, Debug, PartialEq, Eq, Structural)]
pub enum UnresolvedConflict {
    /// Report the error.
    Fail,
    /// Leave the sidecar for a later pass.
    Defer,
    /// Undo the attempt.
    RollBack,
}

/// What follows when an exact attempt could not be published and no fixed outcome
/// of it is visible.
pub fn unresolved_conflict(taken: RecoveryRoute, mode: RecoveryMode) -> (next: UnresolvedConflict)
    ensures
        next == (if taken == RecoveryRoute::General {
            UnresolvedConflict::Fail
        } else if mode == RecoveryMode::RollForwardOnly {
            UnresolvedConflict::Defer
        } else if taken == RecoveryRoute::SchemaApply {
            UnresolvedConflict::RollBack
        } else {
            UnresolvedConflict::Fail
        }),
{
    match (taken, mode) {
        (RecoveryRoute::General, _) => UnresolvedConflict::Fail,
        (_, RecoveryMode::RollForwardOnly) => UnresolvedConflict::Defer,
        (RecoveryRoute::SchemaApply, _) => UnresolvedConflict::RollBack,
        _ => UnresolvedConflict::Fail,
    }
}

} // verus!
