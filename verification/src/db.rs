//! The graph as a whole: control of its root, its internal branches, the checks
//! of a mutation, the clock and fresh identifiers.

use vstd::prelude::*;

use crate::error::{ManifestErrorKind, OmniError, OmniErrorModel};
use crate::text::{
    all_digits, cat2, decimal, lemma_decimal_denotes, same_text, trim_start_slashes, trimmed_start,
    wide_decimal_text,
};

verus! {

/// Control of a graph root that excludes exports. It owns the permit that the queue
/// of the root granted, so that dropping it gives the permit back. It grants no
/// authority over the stored graph.
#[must_use]
#[derive(Debug, PartialEq, Eq)]
pub struct ExportRootExclusion<P> {
    root_identity: String,
    permit: P,
}

/// What an [`ExportRootExclusion`] stands for.
pub struct ExportRootExclusionModel<P> {
    /// The root that is controlled.
    pub root_identity: Seq<char>,
    /// What is given back in the end.
    pub permit: P,
}

impl<P> View for ExportRootExclusion<P> {
    type V = ExportRootExclusionModel<P>;

    closed spec fn view(&self) -> ExportRootExclusionModel<P> {
        ExportRootExclusionModel { root_identity: self.root_identity@, permit: self.permit }
    }
}

/// The error for a root that a live export holds.
pub open spec fn export_slot_taken() -> OmniErrorModel {
    OmniErrorModel::ResourceLimitExceeded {
        resource: "stream_export_slots"@,
        limit: 1,
        actual: 2,
    }
}

/// Reserves one graph root against exports, without waiting. `identity` is the
/// identity of the root or why it has none; `permit` is what the queue of that
/// root granted.
pub fn reserve_export_root_exclusion<P>(
    identity: Result<String, OmniError>,
    permit: Option<P>,
) -> (result: Result<ExportRootExclusion<P>, OmniError>)
    ensures
        match identity {
            Err(error) => result == Err::<ExportRootExclusion<P>, OmniError>(error),
            Ok(root) => match permit {
                None => result is Err && result->Err_0@ == export_slot_taken(),
                Some(granted) => result is Ok && result->Ok_0@ == (ExportRootExclusionModel {
                    root_identity: root@,
                    permit: granted,
                }),
            },
        },
{
    match identity {
        Err(error) => Err(error),
        Ok(root_identity) => match permit {
            Some(permit) => Ok(ExportRootExclusion { root_identity, permit }),
            None => Err(
                OmniError::ResourceLimitExceeded {
                    resource: "stream_export_slots".to_owned(),
                    limit: 1,
                    actual: 2,
                },
            ),
        },
    }
}

/// The branch that a schema apply locks the graph with.
pub const SCHEMA_APPLY_LOCK_BRANCH: &'static str = "__schema_apply_lock__";

/// Key under which a column carries the stable id of its property.
pub const STABLE_PROPERTY_ID_METADATA_KEY: &'static str = "omnigraph.stable_property_id";

/// What a mutation does to a table.
#[derive(Clone, Copy, Debug, PartialEq, Eq, Structural)]
pub enum MutationOpKind {
    Insert,
    Merge,
    Update,
    Delete,
    SchemaRewrite,
}

impl MutationOpKind {
    /// Whether the table version is checked before anything is staged: effects
    /// that are computed from what the table holds need the check, effects that
    /// only add rows do not.
    pub fn strict_pre_stage_version_check(self) -> (strict: bool)
        ensures
            strict == (self is Update || self is Delete || self is SchemaRewrite),
    {
        match self {
            MutationOpKind::Insert | MutationOpKind::Merge => false,
            MutationOpKind::Update | MutationOpKind::Delete | MutationOpKind::SchemaRewrite => true,
        }
    }
}

/// Whether a branch is the lock of a schema apply. Slashes in front do not count.
pub open spec fn is_lock_branch(name: Seq<char>) -> bool {
    trimmed_start(name) == SCHEMA_APPLY_LOCK_BRANCH@
}

/// Whether a branch is the lock of a schema apply.
pub fn is_schema_apply_lock_branch(name: &str) -> (answer: bool)
    ensures
        answer == is_lock_branch(name@),
{
    same_text(trim_start_slashes(name), SCHEMA_APPLY_LOCK_BRANCH)
}

/// Whether a branch belongs to the system rather than to a user: only the lock
/// of a schema apply does.
pub fn is_internal_system_branch(name: &str) -> (answer: bool)
    ensures
        answer == is_lock_branch(name@),
{
    is_schema_apply_lock_branch(name)
}

/// Calls `SystemTime::elapsed` on the UNIX epoch. The result is the time since
/// the epoch in whole microseconds, or the text of the error where the clock is
/// set before the epoch. Nothing is claimed of it: it depends on the clock.
#[verifier::external_body]
fn read_clock() -> (reading: Result<u128, String>) {
    match std::time::UNIX_EPOCH.elapsed() {
        Ok(elapsed) => Ok(elapsed.as_micros()),
        Err(error) => Err(error.to_string()),
    }
}

/// How a clock before the epoch is reported.
pub open spec fn clock_fault(reason: Seq<char>) -> OmniErrorModel {
    OmniErrorModel::Manifest {
        kind: ManifestErrorKind::BadRequest,
        message: "system clock before UNIX_EPOCH: "@ + reason,
        details: None,
    }
}

/// The time stamp of a reading of the clock.
pub fn clock_micros(reading: Result<u128, String>) -> (result: Result<i64, OmniError>)
    ensures
        match reading {
            Ok(micros) => result == Ok::<i64, OmniError>(micros as i64),
            Err(reason) => result is Err && result->Err_0@ == clock_fault(reason@),
        },
{
    match reading {
        Ok(micros) => Ok(
            #[verifier::truncate]
            (micros as i64),
        ),
        Err(reason) => {
            let message: String = cat2("system clock before UNIX_EPOCH: ", reason.as_str());
            Err(OmniError::manifest(message.as_str()))
        },
    }
}

/// Microseconds since the UNIX epoch: the stamp of every lineage and audit row.
pub fn now_micros() -> (result: Result<i64, OmniError>)
    ensures
        result matches Err(error) ==> exists|reason: Seq<char>|
            error@ == #[trigger] clock_fault(reason),
{
    clock_micros(read_clock())
}

/// The start of an attempt, as its sidecar records it: microseconds since the
/// UNIX epoch in decimal notation, or zero where the clock is set before it.
pub fn start_text(reading: Result<u128, String>) -> (text: String)
    ensures
        text@ == match reading {
            Ok(micros) => decimal(micros as nat),
            Err(_) => "0"@,
        },
{
    match reading {
        Ok(micros) => wide_decimal_text(micros),
        Err(_) => "0".to_owned(),
    }
}

/// The start of an attempt that begins now.
pub fn started_now() -> (text: String)
    ensures
        text@.len() > 0,
        all_digits(text@),
{
    let reading: Result<u128, String> = read_clock();
    proof {
        reveal_strlit("0");
        if reading is Ok {
            lemma_decimal_denotes(reading->Ok_0 as nat);
        }
    }
    start_text(reading)
}

/// Calls `ulid::Ulid::new` and renders the identifier with its `to_string`. The
/// text is the canonical one of 26 characters. Nothing else is claimed of it: it
/// depends on the clock and on chance.
#[verifier::external_body]
pub(crate) fn fresh_ulid() -> (id: String)
    ensures
        id@.len() == 26,
{
    ulid::Ulid::new().to_string()
}

} // verus!
