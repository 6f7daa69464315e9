//! The shape check of a whole sidecar, and the binding of its pins to a graph.

use vstd::prelude::*;

use crate::error::{fails_as, internal, OmniError, OmniErrorModel};
use crate::identity::{bad_alias, path_of, table_path_for_identity};
use crate::shape::branch_merge::{branch_merge_v4_defect, validate_branch_merge_v4_shape};
use crate::shape::defect::{
    first_defect, lemma_first_defect, lemma_no_defect, malformed_error, malformed_if,
};
use crate::shape::ensure_indices::{
    ensure_indices_v6_defect, ensure_indices_v8_defect, validate_ensure_indices_v6_shape,
    validate_ensure_indices_v8_shape,
};
use crate::shape::mutation_load::{mutation_load_defect, validate_mutation_load_shape};
use crate::shape::optimize::{optimize_v9_defect, validate_optimize_v9_shape};
use crate::shape::schema_apply::{schema_apply_v7_fault, validate_schema_apply_v7_shape};
use crate::sidecar::{
    kind_text, RecoverySidecar, RecoverySidecarModel, SidecarKind, SidecarTablePin,
    SidecarTablePinModel, BRANCH_MERGE_SIDECAR_SCHEMA_VERSION, ENSURE_INDICES_EXACT_SCHEMA_VERSION,
    ENSURE_INDICES_ROLLBACK_SCHEMA_VERSION, EXACT_EFFECT_IDENTITY_SCHEMA_VERSION,
    IDENTITY_AWARE_SIDECAR_SCHEMA_VERSION, SCHEMA_APPLY_CONFIRMATION_SCHEMA_VERSION,
    SCHEMA_APPLY_EXACT_SCHEMA_VERSION,
};
use crate::text::{cat2, cat3, cat4, cat7, decimal, decimal_text, trim_end_slashes, trimmed_end};
use crate::value::{opt_view, views};

verus! {

/// Whether a sidecar carries one of the exact payloads.
pub open spec fn exact(sidecar: RecoverySidecarModel) -> bool {
    sidecar.protocol_v3 is Some || sidecar.protocol_v4 is Some || sidecar.protocol_v7 is Some
        || sidecar.protocol_v8 is Some
}

/// Whether a sidecar carries one of the exact payloads.
pub fn has_exact_protocol(sidecar: &RecoverySidecar) -> (answer: bool)
    ensures
        answer == exact(sidecar@),
{
    sidecar.protocol_v3.is_some() || sidecar.protocol_v4.is_some() || sidecar.protocol_v7.is_some()
        || sidecar.protocol_v8.is_some()
}

/// What a sidecar of any generation is refused with because of fields that
/// belong to one generation alone.
pub open spec fn generation_defect(sidecar: RecoverySidecarModel) -> Option<Seq<char>> {
    let version = sidecar.schema_version;
    let confirms = sidecar.schema_apply_manifest_published
        || sidecar.schema_apply_target_schema_ir_hash is Some;
    if confirms && version != SCHEMA_APPLY_CONFIRMATION_SCHEMA_VERSION {
        Some(
            "SchemaApply confirmation fields require schema-v"@ + decimal(
                SCHEMA_APPLY_CONFIRMATION_SCHEMA_VERSION as nat,
            ) + ", found schema-v"@ + decimal(version as nat),
        )
    } else if confirms && sidecar.writer_kind != SidecarKind::SchemaApply {
        Some("SchemaApply confirmation fields are present on another writer kind"@)
    } else if sidecar.schema_apply_manifest_published && sidecar.schema_apply_target_schema_ir_hash
        is None {
        Some("SchemaApply manifest confirmation has no target schema identity"@)
    } else if sidecar.ensure_indices_rollback_v6 is Some && version
        != ENSURE_INDICES_ROLLBACK_SCHEMA_VERSION {
        Some(
            "EnsureIndices fixed rollback requires schema-v"@ + decimal(
                ENSURE_INDICES_ROLLBACK_SCHEMA_VERSION as nat,
            ) + ", found schema-v"@ + decimal(version as nat),
        )
    } else if version < EXACT_EFFECT_IDENTITY_SCHEMA_VERSION && exact(sidecar) {
        Some("an exact-effect protocol is present on a pre-v3 sidecar"@)
    } else {
        None
    }
}

/// What a loose schema-apply sidecar is refused with.
pub open spec fn schema_apply_v5_defect(sidecar: RecoverySidecarModel) -> Option<Seq<char>> {
    if sidecar.writer_kind != SidecarKind::SchemaApply {
        Some("schema-v5 is reserved for SchemaApply, found "@ + kind_text(sidecar.writer_kind))
    } else if sidecar.branch is Some || exact(sidecar) {
        Some("schema-v5 SchemaApply must target main and cannot carry v3/v4 protocols"@)
    } else if sidecar.schema_apply_target_schema_ir_hash is None {
        Some("schema-v5 SchemaApply is missing its target schema identity"@)
    } else {
        None
    }
}

/// What a sidecar of the first exact generation is refused with.
pub open spec fn exact_v3_defect(sidecar: RecoverySidecarModel) -> Option<Seq<char>> {
    if sidecar.protocol_v4 is Some || sidecar.protocol_v7 is Some || sidecar.protocol_v8 is Some {
        Some("a writer-specific exact protocol is present on the wrong sidecar generation"@)
    } else if sidecar.writer_kind != SidecarKind::Mutation && sidecar.writer_kind
        != SidecarKind::Load {
        Some(
            "protocol_v3 exact effects are only defined for Mutation/Load, found "@ + kind_text(
                sidecar.writer_kind,
            ),
        )
    } else {
        mutation_load_defect(sidecar)
    }
}

/// The error that a sidecar is refused with, if any. The generation decides which
/// rules apply; the newest one has rules for each writer kind.
pub open spec fn shape_fault(uri: Seq<char>, sidecar: RecoverySidecarModel) -> Option<
    OmniErrorModel,
> {
    let version = sidecar.schema_version;
    if generation_defect(sidecar) is Some {
        malformed_if(uri, version, generation_defect(sidecar))
    } else if version < EXACT_EFFECT_IDENTITY_SCHEMA_VERSION {
        None
    } else if version == IDENTITY_AWARE_SIDECAR_SCHEMA_VERSION {
        match sidecar.writer_kind {
            SidecarKind::Mutation | SidecarKind::Load => malformed_if(
                uri,
                version,
                mutation_load_defect(sidecar),
            ),
            SidecarKind::BranchMerge => malformed_if(
                uri,
                version,
                branch_merge_v4_defect(sidecar),
            ),
            SidecarKind::SchemaApply => schema_apply_v7_fault(uri, sidecar),
            SidecarKind::EnsureIndices => malformed_if(
                uri,
                version,
                ensure_indices_v8_defect(sidecar),
            ),
            SidecarKind::Optimize => malformed_if(uri, version, optimize_v9_defect(sidecar)),
        }
    } else if version == BRANCH_MERGE_SIDECAR_SCHEMA_VERSION {
        malformed_if(uri, version, branch_merge_v4_defect(sidecar))
    } else if version == SCHEMA_APPLY_CONFIRMATION_SCHEMA_VERSION {
        malformed_if(uri, version, schema_apply_v5_defect(sidecar))
    } else if version == ENSURE_INDICES_ROLLBACK_SCHEMA_VERSION {
        malformed_if(uri, version, ensure_indices_v6_defect(sidecar))
    } else if version == SCHEMA_APPLY_EXACT_SCHEMA_VERSION {
        schema_apply_v7_fault(uri, sidecar)
    } else if version == ENSURE_INDICES_EXACT_SCHEMA_VERSION {
        malformed_if(uri, version, ensure_indices_v8_defect(sidecar))
    } else {
        malformed_if(uri, version, exact_v3_defect(sidecar))
    }
}

/// Whether a sidecar keeps every rule of its shape. Which record it is stored in
/// does not matter.
pub open spec fn well_formed(sidecar: RecoverySidecarModel) -> bool {
    shape_fault(Seq::empty(), sidecar) is None
}

/// Finds a field that does not belong to the sidecar's generation.
fn find_generation_defect(sidecar: &RecoverySidecar) -> (defect: Option<String>)
    ensures
        opt_view(defect) == generation_defect(sidecar@),
{
    let version: u32 = sidecar.schema_version;
    let confirms: bool = sidecar.schema_apply_manifest_published
        || sidecar.schema_apply_target_schema_ir_hash.is_some();
    if confirms && version != SCHEMA_APPLY_CONFIRMATION_SCHEMA_VERSION {
        let wanted: String = decimal_text(SCHEMA_APPLY_CONFIRMATION_SCHEMA_VERSION as u64);
        let found: String = decimal_text(version as u64);
        return Some(
            cat4(
                "SchemaApply confirmation fields require schema-v",
                wanted.as_str(),
                ", found schema-v",
                found.as_str(),
            ),
        );
    }
    if confirms && sidecar.writer_kind != SidecarKind::SchemaApply {
        return Some(
            "SchemaApply confirmation fields are present on another writer kind".to_owned(),
        );
    }
    if sidecar.schema_apply_manifest_published
        && sidecar.schema_apply_target_schema_ir_hash.is_none() {
        return Some("SchemaApply manifest confirmation has no target schema identity".to_owned());
    }
    if sidecar.ensure_indices_rollback_v6.is_some() && version
        != ENSURE_INDICES_ROLLBACK_SCHEMA_VERSION {
        let wanted: String = decimal_text(ENSURE_INDICES_ROLLBACK_SCHEMA_VERSION as u64);
        let found: String = decimal_text(version as u64);
        return Some(
            cat4(
                "EnsureIndices fixed rollback requires schema-v",
                wanted.as_str(),
                ", found schema-v",
                found.as_str(),
            ),
        );
    }
    if version < EXACT_EFFECT_IDENTITY_SCHEMA_VERSION && has_exact_protocol(sidecar) {
        return Some("an exact-effect protocol is present on a pre-v3 sidecar".to_owned());
    }
    None
}

/// Finds the first rule that a loose schema-apply sidecar breaks.
fn find_schema_apply_v5_defect(sidecar: &RecoverySidecar) -> (defect: Option<String>)
    ensures
        opt_view(defect) == schema_apply_v5_defect(sidecar@),
{
    if sidecar.writer_kind != SidecarKind::SchemaApply {
        return Some(
            cat2("schema-v5 is reserved for SchemaApply, found ", sidecar.writer_kind.name()),
        );
    }
    if sidecar.branch.is_some() || has_exact_protocol(sidecar) {
        return Some(
            "schema-v5 SchemaApply must target main and cannot carry v3/v4 protocols".to_owned(),
        );
    }
    if sidecar.schema_apply_target_schema_ir_hash.is_none() {
        return Some("schema-v5 SchemaApply is missing its target schema identity".to_owned());
    }
    None
}

/// Refuses a sidecar that breaks a rule of its shape.
pub fn validate_sidecar_shape(sidecar_uri: &str, sidecar: &RecoverySidecar) -> (result: Result<
    (),
    OmniError,
>)
    ensures
        fails_as(result, shape_fault(sidecar_uri@, sidecar@)),
{
    let version: u32 = sidecar.schema_version;
    if let Some(reason) = find_generation_defect(sidecar) {
        return Err(malformed_error(sidecar_uri, version, reason.as_str()));
    }
    if version < EXACT_EFFECT_IDENTITY_SCHEMA_VERSION {
        return Ok(());
    }
    if version == IDENTITY_AWARE_SIDECAR_SCHEMA_VERSION {
        return match sidecar.writer_kind {
            SidecarKind::Mutation | SidecarKind::Load => validate_mutation_load_shape(
                sidecar_uri,
                sidecar,
            ),
            SidecarKind::BranchMerge => validate_branch_merge_v4_shape(sidecar_uri, sidecar),
            SidecarKind::SchemaApply => validate_schema_apply_v7_shape(sidecar_uri, sidecar),
            SidecarKind::EnsureIndices => validate_ensure_indices_v8_shape(sidecar_uri, sidecar),
            SidecarKind::Optimize => validate_optimize_v9_shape(sidecar_uri, sidecar),
        };
    }
    if version == BRANCH_MERGE_SIDECAR_SCHEMA_VERSION {
        return validate_branch_merge_v4_shape(sidecar_uri, sidecar);
    }
    if version == SCHEMA_APPLY_CONFIRMATION_SCHEMA_VERSION {
        return match find_schema_apply_v5_defect(sidecar) {
            Some(reason) => Err(malformed_error(sidecar_uri, version, reason.as_str())),
            None => Ok(()),
        };
    }
    if version == ENSURE_INDICES_ROLLBACK_SCHEMA_VERSION {
        return validate_ensure_indices_v6_shape(sidecar_uri, sidecar);
    }
    if version == SCHEMA_APPLY_EXACT_SCHEMA_VERSION {
        return validate_schema_apply_v7_shape(sidecar_uri, sidecar);
    }
    if version == ENSURE_INDICES_EXACT_SCHEMA_VERSION {
        return validate_ensure_indices_v8_shape(sidecar_uri, sidecar);
    }
    if sidecar.protocol_v4.is_some() || sidecar.protocol_v7.is_some()
        || sidecar.protocol_v8.is_some() {
        return Err(
            malformed_error(
                sidecar_uri,
                version,
                "a writer-specific exact protocol is present on the wrong sidecar generation",
            ),
        );
    }
    if sidecar.writer_kind != SidecarKind::Mutation && sidecar.writer_kind != SidecarKind::Load {
        let reason: String = cat2(
            "protocol_v3 exact effects are only defined for Mutation/Load, found ",
            sidecar.writer_kind.name(),
        );
        return Err(malformed_error(sidecar_uri, version, reason.as_str()));
    }
    validate_mutation_load_shape(sidecar_uri, sidecar)
}

/// The location that a pinned table has in the graph at `root`.
pub open spec fn owned_location(root: Seq<char>, relative: Seq<char>) -> Seq<char> {
    trimmed_end(root) + "/"@ + relative
}

/// What one pin is refused with because it does not point into the graph.
pub open spec fn pin_path_fault(
    root: Seq<char>,
    uri: Seq<char>,
    pin: SidecarTablePinModel,
) -> Option<OmniErrorModel> {
    match path_of(pin.table_key, pin.identity) {
        None => Some(bad_alias(pin.table_key)),
        Some(relative) => if pin.table_path != owned_location(root, relative) {
            Some(
                internal(
                    "recovery sidecar at '"@ + uri + "' binds table identity "@
                        + pin.identity.text() + " alias '"@ + pin.table_key
                        + "' to foreign or non-canonical URI '"@ + pin.table_path
                        + "'; expected exact graph-owned URI '"@ + owned_location(root, relative)
                        + "'"@,
                ),
            )
        } else {
            None
        },
    }
}

/// What is found of every pin.
pub open spec fn pin_path_findings(
    root: Seq<char>,
    uri: Seq<char>,
    pins: Seq<SidecarTablePinModel>,
) -> Seq<Option<OmniErrorModel>> {
    Seq::new(pins.len(), |i: int| pin_path_fault(root, uri, pins[i]))
}

/// What a sidecar is refused with because it does not belong to the graph at
/// `root`. Older generations keep their own locations.
pub open spec fn ownership_fault(
    root: Seq<char>,
    uri: Seq<char>,
    sidecar: RecoverySidecarModel,
) -> Option<OmniErrorModel> {
    if sidecar.schema_version != IDENTITY_AWARE_SIDECAR_SCHEMA_VERSION {
        None
    } else {
        first_defect(pin_path_findings(root, uri, sidecar.tables))
    }
}

/// Refuses one pin that does not point into the graph.
fn check_pin_path(root: &str, uri: &str, pin: &SidecarTablePin) -> (fault: Option<OmniError>)
    ensures
        opt_view(fault) == pin_path_fault(root@, uri@, pin@),
{
    let relative: String = match table_path_for_identity(pin.table_key.as_str(), pin.identity) {
        Ok(relative) => relative,
        Err(error) => {
            return Some(error);
        },
    };
    let expected: String = cat3(trim_end_slashes(root), "/", relative.as_str());
    if pin.table_path != expected {
        let identity: String = pin.identity.to_text();
        let head: String = cat7(
            "recovery sidecar at '",
            uri,
            "' binds table identity ",
            identity.as_str(),
            " alias '",
            pin.table_key.as_str(),
            "' to foreign or non-canonical URI '",
        );
        let tail: String = cat3(
            head.as_str(),
            pin.table_path.as_str(),
            "'; expected exact graph-owned URI '",
        );
        let message: String = cat3(tail.as_str(), expected.as_str(), "'");
        return Some(OmniError::manifest_internal(message.as_str()));
    }
    None
}

/// Refuses a sidecar that does not belong to the graph at `root_uri`, before any
/// of its locations is opened, restored or deleted.
pub fn validate_identity_aware_pin_paths(
    root_uri: &str,
    sidecar_uri: &str,
    sidecar: &RecoverySidecar,
) -> (result: Result<(), OmniError>)
    ensures
        fails_as(result, ownership_fault(root_uri@, sidecar_uri@, sidecar@)),
{
    if sidecar.schema_version != IDENTITY_AWARE_SIDECAR_SCHEMA_VERSION {
        return Ok(());
    }
    let pins = &sidecar.tables;
    let ghost findings = pin_path_findings(root_uri@, sidecar_uri@, views(pins@));
    let mut i: usize = 0;
    while i < pins.len()
        invariant
            i <= pins.len(),
            *pins == sidecar.tables,
            sidecar.schema_version == IDENTITY_AWARE_SIDECAR_SCHEMA_VERSION,
            findings == pin_path_findings(root_uri@, sidecar_uri@, views(pins@)),
            forall|j: int| 0 <= j < i ==> findings[j] is None,
        decreases pins.len() - i,
    {
        let fault: Option<OmniError> = check_pin_path(root_uri, sidecar_uri, &pins[i]);
        assert(opt_view(fault) == findings[i as int]);
        if let Some(error) = fault {
            proof {
                lemma_first_defect(findings, i as int);
            }
            return Err(error);
        }
        i += 1;
    }
    proof {
        lemma_no_defect(findings);
    }
    Ok(())
}

} // verus!
