//! The errors of the library.

use vstd::prelude::*;

use crate::text::{cat4, cat6, decimal, decimal_text};
use crate::value::{opt_view, replicate_opt, Replicate};

verus! {

/// What a manifest error is about.
#[derive(Clone, Copy, Debug, PartialEq, Eq, Structural)]
pub enum ManifestErrorKind {
    /// The request cannot be served as it stands.
    BadRequest,
    /// Somebody else moved what the request relied on.
    Conflict,
    /// A stored record or an internal promise is broken.
    Internal,
}

/// What exactly a conflict found.
#[derive(Debug, PartialEq, Eq)]
pub enum ManifestConflictDetails {
    /// A table is not at the version that the caller expected.
    ExpectedVersionMismatch { table_key: String, expected: u64, actual: u64 },
    /// A member of the read set is not what it was when it was read.
    ReadSetChanged { member: String, expected_value: Option<String>, actual_value: Option<String> },
}

/// What a [`ManifestConflictDetails`] stands for.
pub enum ManifestConflictDetailsModel {
    ExpectedVersionMismatch { table_key: Seq<char>, expected: u64, actual: u64 },
    ReadSetChanged {
        member: Seq<char>,
        expected_value: Option<Seq<char>>,
        actual_value: Option<Seq<char>>,
    },
}

impl View for ManifestConflictDetails {
    type V = ManifestConflictDetailsModel;

    open spec fn view(&self) -> ManifestConflictDetailsModel {
        match *self {
            ManifestConflictDetails::ExpectedVersionMismatch {
                table_key,
                expected,
                actual,
            } => ManifestConflictDetailsModel::ExpectedVersionMismatch {
                table_key: table_key@,
                expected,
                actual,
            },
            ManifestConflictDetails::ReadSetChanged {
                member,
                expected_value,
                actual_value,
            } => ManifestConflictDetailsModel::ReadSetChanged {
                member: member@,
                expected_value: opt_view(expected_value),
                actual_value: opt_view(actual_value),
            },
        }
    }
}

/// Every way in which the library can fail.
#[derive(Debug, PartialEq, Eq)]
pub enum OmniError {
    /// The table store failed.
    Lance { message: String },
    /// The manifest, or a record that belongs to it, is not as it has to be.
    Manifest {
        kind: ManifestErrorKind,
        message: String,
        details: Option<ManifestConflictDetails>,
    },
    /// A bounded resource is used up.
    ResourceLimitExceeded { resource: String, limit: u64, actual: u64 },
    /// A pending recovery has to be finished by a read-write open first.
    RecoveryRequired { operation_id: String, reason: String },
}

/// What an [`OmniError`] stands for.
pub enum OmniErrorModel {
    Lance { message: Seq<char> },
    Manifest {
        kind: ManifestErrorKind,
        message: Seq<char>,
        details: Option<ManifestConflictDetailsModel>,
    },
    ResourceLimitExceeded { resource: Seq<char>, limit: u64, actual: u64 },
    RecoveryRequired { operation_id: Seq<char>, reason: Seq<char> },
}

impl View for OmniError {
    type V = OmniErrorModel;

    open spec fn view(&self) -> OmniErrorModel {
        match *self {
            OmniError::Lance { message } => OmniErrorModel::Lance { message: message@ },
            OmniError::Manifest { kind, message, details } => OmniErrorModel::Manifest {
                kind,
                message: message@,
                details: opt_view(details),
            },
            OmniError::ResourceLimitExceeded {
                resource,
                limit,
                actual,
            } => OmniErrorModel::ResourceLimitExceeded { resource: resource@, limit, actual },
            OmniError::RecoveryRequired { operation_id, reason } =>
                OmniErrorModel::RecoveryRequired { operation_id: operation_id@, reason: reason@ },
        }
    }
}

impl Replicate for ManifestConflictDetails {
    fn replicate(&self) -> (copy: Self) {
        match self {
            ManifestConflictDetails::ExpectedVersionMismatch {
                table_key,
                expected,
                actual,
            } => ManifestConflictDetails::ExpectedVersionMismatch {
                table_key: table_key.clone(),
                expected: *expected,
                actual: *actual,
            },
            ManifestConflictDetails::ReadSetChanged {
                member,
                expected_value,
                actual_value,
            } => ManifestConflictDetails::ReadSetChanged {
                member: member.clone(),
                expected_value: replicate_opt(expected_value),
                actual_value: replicate_opt(actual_value),
            },
        }
    }
}

impl Replicate for OmniError {
    fn replicate(&self) -> (copy: Self) {
        match self {
            OmniError::Lance { message } => OmniError::Lance { message: message.clone() },
            OmniError::Manifest { kind, message, details } => OmniError::Manifest {
                kind: *kind,
                message: message.clone(),
                details: replicate_opt(details),
            },
            OmniError::ResourceLimitExceeded {
                resource,
                limit,
                actual,
            } => OmniError::ResourceLimitExceeded {
                resource: resource.clone(),
                limit: *limit,
                actual: *actual,
            },
            OmniError::RecoveryRequired { operation_id, reason } => OmniError::RecoveryRequired {
                operation_id: operation_id.clone(),
                reason: reason.clone(),
            },
        }
    }
}

impl OmniErrorModel {
    /// Whether this is a read-set conflict.
    pub open spec fn read_set_changed(self) -> bool {
        self matches OmniErrorModel::Manifest { details: Some(d), .. } && d is ReadSetChanged
    }

    /// Whether this is a failed per-table version expectation.
    pub open spec fn expected_version_mismatch(self) -> bool {
        self matches OmniErrorModel::Manifest { details: Some(d), .. }
            && d is ExpectedVersionMismatch
    }
}

/// A broken record or promise, with `message`.
pub open spec fn internal(message: Seq<char>) -> OmniErrorModel {
    OmniErrorModel::Manifest { kind: ManifestErrorKind::Internal, message, details: None }
}

/// A conflict, with `message`.
pub open spec fn conflict(message: Seq<char>) -> OmniErrorModel {
    OmniErrorModel::Manifest { kind: ManifestErrorKind::Conflict, message, details: None }
}

/// How messages spell an optional piece of text.
pub open spec fn opt_text(value: Option<Seq<char>>) -> Seq<char> {
    match value {
        Some(text) => text,
        None => "none"@,
    }
}

/// The conflict that reports a changed member of the read set.
pub open spec fn read_set_changed(
    member: Seq<char>,
    expected: Option<Seq<char>>,
    actual: Option<Seq<char>>,
) -> OmniErrorModel {
    OmniErrorModel::Manifest {
        kind: ManifestErrorKind::Conflict,
        message: "read set changed at '"@ + member + "': expected "@ + opt_text(expected)
            + ", found "@ + opt_text(actual),
        details: Some(ManifestConflictDetailsModel::ReadSetChanged {
            member,
            expected_value: expected,
            actual_value: actual,
        }),
    }
}

/// How a result relates to the error, if any, that its input calls for.
pub open spec fn fails_as<T>(result: Result<T, OmniError>, fault: Option<OmniErrorModel>) -> bool {
    match fault {
        Some(error) => result is Err && result->Err_0@ == error,
        None => result is Ok,
    }
}

/// An optional piece of text, as messages spell it.
fn opt_to_text(value: &Option<String>) -> (text: String)
    ensures
        text@ == opt_text(opt_view(*value)),
{
    match value {
        Some(text) => text.clone(),
        None => "none".to_owned(),
    }
}

impl OmniError {
    /// A request that cannot be served.
    pub fn manifest(message: &str) -> (error: Self)
        ensures
            error@ == (OmniErrorModel::Manifest {
                kind: ManifestErrorKind::BadRequest,
                message: message@,
                details: None,
            }),
    {
        OmniError::Manifest {
            kind: ManifestErrorKind::BadRequest,
            message: message.to_owned(),
            details: None,
        }
    }

    /// A broken record or promise.
    pub fn manifest_internal(message: &str) -> (error: Self)
        ensures
            error@ == internal(message@),
    {
        OmniError::Manifest {
            kind: ManifestErrorKind::Internal,
            message: message.to_owned(),
            details: None,
        }
    }

    /// A conflict without further details.
    pub fn manifest_conflict(message: &str) -> (error: Self)
        ensures
            error@ == conflict(message@),
    {
        OmniError::Manifest {
            kind: ManifestErrorKind::Conflict,
            message: message.to_owned(),
            details: None,
        }
    }

    /// A conflict over one member of the read set.
    pub fn manifest_read_set_changed(
        member: &str,
        expected: Option<String>,
        actual: Option<String>,
    ) -> (error: Self)
        ensures
            error@ == read_set_changed(member@, opt_view(expected), opt_view(actual)),
    {
        let expected_text: String = opt_to_text(&expected);
        let actual_text: String = opt_to_text(&actual);
        let message: String = cat6(
            "read set changed at '",
            member,
            "': expected ",
            expected_text.as_str(),
            ", found ",
            actual_text.as_str(),
        );
        OmniError::Manifest {
            kind: ManifestErrorKind::Conflict,
            message,
            details: Some(
                ManifestConflictDetails::ReadSetChanged {
                    member: member.to_owned(),
                    expected_value: expected,
                    actual_value: actual,
                },
            ),
        }
    }

    /// A recovery that a read-write open has to finish first.
    pub fn recovery_required(operation_id: &str, reason: &str) -> (error: Self)
        ensures
            error@ == (OmniErrorModel::RecoveryRequired {
                operation_id: operation_id@,
                reason: reason@,
            }),
    {
        OmniError::RecoveryRequired {
            operation_id: operation_id.to_owned(),
            reason: reason.to_owned(),
        }
    }

    /// Whether this is a read-set conflict.
    pub fn is_read_set_changed(&self) -> (answer: bool)
        ensures
            answer == self@.read_set_changed(),
    {
        match self {
            OmniError::Manifest {
                details: Some(ManifestConflictDetails::ReadSetChanged { .. }),
                ..
            } => true,
            _ => false,
        }
    }

    /// The error in words.
    pub fn to_text(&self) -> (text: String)
        ensures
            text@ == error_text(self@),
    {
        match self {
            OmniError::Lance { message } => message.clone(),
            OmniError::Manifest { message, .. } => message.clone(),
            OmniError::ResourceLimitExceeded { resource, limit, actual } => {
                let limit_text: String = decimal_text(*limit);
                let actual_text: String = decimal_text(*actual);
                cat6(
                    "resource limit exceeded for ",
                    resource.as_str(),
                    ": limit ",
                    limit_text.as_str(),
                    ", actual ",
                    actual_text.as_str(),
                )
            },
            OmniError::RecoveryRequired { operation_id, reason } => cat4(
                "recovery of operation '",
                operation_id.as_str(),
                "' is required: ",
                reason.as_str(),
            ),
        }
    }
}

/// An error in words.
pub open spec fn error_text(error: OmniErrorModel) -> Seq<char> {
    match error {
        OmniErrorModel::Lance { message } => message,
        OmniErrorModel::Manifest { message, .. } => message,
        OmniErrorModel::ResourceLimitExceeded { resource, limit, actual } =>
            "resource limit exceeded for "@ + resource + ": limit "@ + decimal(limit as nat)
            + ", actual "@ + decimal(actual as nat),
        OmniErrorModel::RecoveryRequired { operation_id, reason } => "recovery of operation '"@
            + operation_id + "' is required: "@ + reason,
    }
}

/// Whether an error is the publisher's per-table version conflict: a concurrent
/// writer moved the manifest past what the caller expected.
pub fn is_expected_version_mismatch(error: &OmniError) -> (answer: bool)
    ensures
        answer == error@.expected_version_mismatch(),
{
    match error {
        OmniError::Manifest {
            details: Some(ManifestConflictDetails::ExpectedVersionMismatch { .. }),
            ..
        } => true,
        _ => false,
    }
}

} // verus!
