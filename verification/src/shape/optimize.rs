//! The shape of an optimize sidecar: pins and nothing else.

use vstd::prelude::*;

use crate::error::{fails_as, OmniError};
use crate::shape::defect::{
    malformed_error, malformed_if, pins_defect, validate_unique_pin_identities,
};
use crate::sidecar::{RecoverySidecar, RecoverySidecarModel, SidecarKind};

verus! {

/// What an optimize sidecar is refused with: the first rule, in this order, that
/// it breaks.
pub open spec fn optimize_v9_defect(sidecar: RecoverySidecarModel) -> Option<Seq<char>> {
    if sidecar.writer_kind != SidecarKind::Optimize || sidecar.protocol_v3 is Some
        || sidecar.protocol_v4 is Some || sidecar.protocol_v7 is Some || sidecar.protocol_v8
        is Some || sidecar.ensure_indices_rollback_v6 is Some
        || sidecar.additional_registrations.len() > 0 || sidecar.tombstones.len() > 0 {
        Some("schema-v9 Optimize must carry only identity-bearing table pins"@)
    } else {
        pins_defect(sidecar.tables, true)
    }
}

/// Refuses an optimize sidecar that breaks a rule of its shape.
pub fn validate_optimize_v9_shape(sidecar_uri: &str, sidecar: &RecoverySidecar) -> (result: Result<
    (),
    OmniError,
>)
    ensures
        fails_as(
            result,
            malformed_if(sidecar_uri@, sidecar.schema_version, optimize_v9_defect(sidecar@)),
        ),
{
    let defect: Option<String> = if sidecar.writer_kind != SidecarKind::Optimize
        || sidecar.protocol_v3.is_some() || sidecar.protocol_v4.is_some()
        || sidecar.protocol_v7.is_some() || sidecar.protocol_v8.is_some()
        || sidecar.ensure_indices_rollback_v6.is_some()
        || !sidecar.additional_registrations.is_empty() || !sidecar.tombstones.is_empty() {
        Some("schema-v9 Optimize must carry only identity-bearing table pins".to_owned())
    } else {
        validate_unique_pin_identities(&sidecar.tables, true)
    };
    match defect {
        Some(reason) => Err(
            malformed_error(sidecar_uri, sidecar.schema_version, reason.as_str()),
        ),
        None => Ok(()),
    }
}

} // verus!
