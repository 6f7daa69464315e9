//! The recovery sidecar: the durable record that a writer leaves before its
//! first table commit, so that a crash between the table commits and the
//! manifest publish can be finished or undone.

use vstd::prelude::*;

use crate::identity::TableIdentity;
use crate::value::{opt_view, replicate_opt, replicate_vec, same_opt, same_vec, views};
use crate::value::{Replicate, Same};

verus! {

/// System actor of lineage that recovery itself owns: loose recovery, fixed
/// rollback, and the discard of an orphaned branch.
pub const RECOVERY_ACTOR: &'static str = "omnigraph:recovery";

/// Subdirectory under the graph root that holds the sidecar files.
pub const RECOVERY_DIR_NAME: &'static str = "__recovery";

/// Newest sidecar generation that this library writes and reads. Every older
/// generation keeps the meaning it had when it was written; a newer one is
/// refused.
pub const SIDECAR_SCHEMA_VERSION: u32 = 9;

/// The only generation that writers emit: every pin, effect and output slot
/// carries its table's identity.
pub const IDENTITY_AWARE_SIDECAR_SCHEMA_VERSION: u32 = 9;

/// Oldest generation with loose classification.
pub const LEGACY_SIDECAR_SCHEMA_VERSION: u32 = 2;

/// Generation from which a branch merge confirms what its publish reached.
/// Fixed, so that newer generations keep the floor.
pub const CONFIRMATION_SCHEMA_VERSION: u32 = 2;

/// Generation from which mutation and load effects are exact.
pub const EXACT_EFFECT_IDENTITY_SCHEMA_VERSION: u32 = 3;

/// First generation of the mutation and load protocol.
pub const MUTATION_LOAD_SIDECAR_SCHEMA_VERSION: u32 = 3;

/// First generation of the branch-merge protocol.
pub const BRANCH_MERGE_SIDECAR_SCHEMA_VERSION: u32 = 4;

/// Schema-apply generation with a target identity and a durable confirmation
/// of its manifest publish. Its tables are classified loosely.
pub const SCHEMA_APPLY_CONFIRMATION_SCHEMA_VERSION: u32 = 5;

/// Ensure-indices generation with a fixed rollback outcome.
pub const ENSURE_INDICES_ROLLBACK_SCHEMA_VERSION: u32 = 6;

/// Exact schema-apply generation.
pub const SCHEMA_APPLY_EXACT_SCHEMA_VERSION: u32 = 7;

/// Exact ensure-indices generation.
pub const ENSURE_INDICES_EXACT_SCHEMA_VERSION: u32 = 8;

/// Most data transactions that one table may arm in a branch merge.
pub const MAX_BRANCH_MERGE_DATA_TRANSACTIONS: u64 = 1024;

/// Most versions of history that exact recovery looks at: the longest data
/// chain, one derived index commit and one compensating restore.
pub const MAX_EFFECT_IDENTITY_SCAN_VERSIONS: u64 = MAX_BRANCH_MERGE_DATA_TRANSACTIONS + 2;

/// Which recovery actions a sweep may take.
#[derive(Clone, Copy, Debug, PartialEq, Eq, Structural)]
pub enum RecoveryMode {
    /// At open: no other writer is active, so a table may be restored.
    Full,
    /// While the process serves: only roll-forward is safe. A sidecar that needs
    /// more stays on disk for the next read-write open.
    RollForwardOnly,
}

/// The writer that produced a sidecar.
#[derive(Clone, Copy, Debug, PartialEq, Eq, Structural)]
pub enum SidecarKind {
    Mutation,
    Load,
    SchemaApply,
    BranchMerge,
    EnsureIndices,
    Optimize,
}

/// The name of a writer kind, as messages and audit rows spell it.
pub open spec fn kind_text(kind: SidecarKind) -> Seq<char> {
    match kind {
        SidecarKind::Mutation => "Mutation"@,
        SidecarKind::Load => "Load"@,
        SidecarKind::SchemaApply => "SchemaApply"@,
        SidecarKind::BranchMerge => "BranchMerge"@,
        SidecarKind::EnsureIndices => "EnsureIndices"@,
        SidecarKind::Optimize => "Optimize"@,
    }
}

impl SidecarKind {
    /// The name of this writer kind.
    pub fn name(self) -> (name: &'static str)
        ensures
            name@ == kind_text(self),
    {
        match self {
            SidecarKind::Mutation => "Mutation",
            SidecarKind::Load => "Load",
            SidecarKind::SchemaApply => "SchemaApply",
            SidecarKind::BranchMerge => "BranchMerge",
            SidecarKind::EnsureIndices => "EnsureIndices",
            SidecarKind::Optimize => "Optimize",
        }
    }
}

/// Durable phase of an exact effect set.
#[derive(Clone, Copy, Debug, PartialEq, Eq, Structural)]
pub enum RecoveryEffectPhase {
    /// Written before the first table commit.
    Armed,
    /// Written only after every planned effect landed with its exact
    /// transaction and its full manifest update.
    EffectsConfirmed,
}

/// The identity of one staged table transaction: the version it was read at and
/// the unique id it was minted with.
#[derive(Debug, PartialEq, Eq)]
pub struct StagedTransactionIdentity {
    pub read_version: u64,
    pub uuid: String,
}

/// What a [`StagedTransactionIdentity`] stands for.
pub struct StagedTransactionIdentityModel {
    pub read_version: u64,
    pub uuid: Seq<char>,
}

impl View for StagedTransactionIdentity {
    type V = StagedTransactionIdentityModel;

    open spec fn view(&self) -> StagedTransactionIdentityModel {
        StagedTransactionIdentityModel {
            read_version: self.read_version,
            uuid: self.uuid@,
        }
    }
}

impl Replicate for StagedTransactionIdentity {
    fn replicate(&self) -> (copy: Self) {
        StagedTransactionIdentity {
            read_version: self.read_version,
            uuid: self.uuid.clone(),
        }
    }
}

impl Same for StagedTransactionIdentity {
    fn same(&self, other: &Self) -> (equal: bool) {
        self.read_version == other.read_version
            && self.uuid == other.uuid
    }
}

impl Replicate for (u64, String) {
    fn replicate(&self) -> (copy: Self) {
        (self.0, self.1.clone())
    }
}

impl Same for (u64, String) {
    fn same(&self, other: &Self) -> (equal: bool) {
        self.0 == other.0 && self.1 == other.1
    }
}

/// The native identity of a table branch: the versions at which its line of
/// descent was forked, each with the id minted for that fork. The main branch has
/// no fork.
#[derive(Debug, PartialEq, Eq)]
pub struct BranchIdentifier {
    pub version_mapping: Vec<(u64, String)>,
}

/// What a [`BranchIdentifier`] stands for.
pub struct BranchIdentifierModel {
    pub version_mapping: Seq<(u64, Seq<char>)>,
}

impl View for BranchIdentifier {
    type V = BranchIdentifierModel;

    open spec fn view(&self) -> BranchIdentifierModel {
        BranchIdentifierModel {
            version_mapping: views(self.version_mapping@),
        }
    }
}

impl Replicate for BranchIdentifier {
    fn replicate(&self) -> (copy: Self) {
        BranchIdentifier {
            version_mapping: replicate_vec(&self.version_mapping),
        }
    }
}

impl Same for BranchIdentifier {
    fn same(&self, other: &Self) -> (equal: bool) {
        same_vec(&self.version_mapping, &other.version_mapping)
    }
}

impl BranchIdentifier {
    /// The identity of the main branch.
    pub fn main() -> (identifier: Self)
        ensures
            identifier@.version_mapping.len() == 0,
    {
        BranchIdentifier { version_mapping: Vec::new() }
    }
}

/// What the store reports of one committed table version.
#[derive(Debug, PartialEq, Eq)]
pub struct TableVersionMetadata {
    pub manifest_path: String,
    pub manifest_size: Option<u64>,
    pub e_tag: Option<String>,
    pub naming_scheme: Option<String>,
}

/// What a [`TableVersionMetadata`] stands for.
pub struct TableVersionMetadataModel {
    pub manifest_path: Seq<char>,
    pub manifest_size: Option<u64>,
    pub e_tag: Option<Seq<char>>,
    pub naming_scheme: Option<Seq<char>>,
}

impl View for TableVersionMetadata {
    type V = TableVersionMetadataModel;

    open spec fn view(&self) -> TableVersionMetadataModel {
        TableVersionMetadataModel {
            manifest_path: self.manifest_path@,
            manifest_size: self.manifest_size,
            e_tag: opt_view(self.e_tag),
            naming_scheme: opt_view(self.naming_scheme),
        }
    }
}

impl Replicate for TableVersionMetadata {
    fn replicate(&self) -> (copy: Self) {
        TableVersionMetadata {
            manifest_path: self.manifest_path.clone(),
            manifest_size: self.manifest_size,
            e_tag: replicate_opt(&self.e_tag),
            naming_scheme: replicate_opt(&self.naming_scheme),
        }
    }
}

impl Same for TableVersionMetadata {
    fn same(&self, other: &Self) -> (equal: bool) {
        self.manifest_path == other.manifest_path
            && same_opt(&self.manifest_size, &other.manifest_size)
            && same_opt(&self.e_tag, &other.e_tag)
            && same_opt(&self.naming_scheme, &other.naming_scheme)
    }
}

/// The outcome of recovery for one table, as the audit row records it.
#[derive(Debug, PartialEq, Eq)]
pub struct TableOutcome {
    pub table_key: String,
    pub from_version: u64,
    pub to_version: u64,
}

/// What a [`TableOutcome`] stands for.
pub struct TableOutcomeModel {
    pub table_key: Seq<char>,
    pub from_version: u64,
    pub to_version: u64,
}

impl View for TableOutcome {
    type V = TableOutcomeModel;

    open spec fn view(&self) -> TableOutcomeModel {
        TableOutcomeModel {
            table_key: self.table_key@,
            from_version: self.from_version,
            to_version: self.to_version,
        }
    }
}

impl Replicate for TableOutcome {
    fn replicate(&self) -> (copy: Self) {
        TableOutcome {
            table_key: self.table_key.clone(),
            from_version: self.from_version,
            to_version: self.to_version,
        }
    }
}

impl Same for TableOutcome {
    fn same(&self, other: &Self) -> (equal: bool) {
        self.table_key == other.table_key
            && self.from_version == other.from_version
            && self.to_version == other.to_version
    }
}

/// One table of the commit that a sidecar announces.
#[derive(Debug, PartialEq, Eq)]
pub struct SidecarTablePin {
    /// The table lifetime that the pin owns.
    pub identity: TableIdentity,
    /// Current alias of the table, for diagnostics.
    pub table_key: String,
    /// Full location of the table.
    pub table_path: String,
    /// Version that the manifest pinned when the writer started.
    pub expected_version: u64,
    /// Version that the writer means to reach; a lower bound for a writer with
    /// several commits.
    pub post_commit_pin: u64,
    /// Version that the complete publish of this table reached, once known.
    pub confirmed_version: Option<u64>,
    /// Branch that the table lives on, or none for main.
    pub table_branch: Option<String>,
}

/// What a [`SidecarTablePin`] stands for.
pub struct SidecarTablePinModel {
    pub identity: TableIdentity,
    pub table_key: Seq<char>,
    pub table_path: Seq<char>,
    pub expected_version: u64,
    pub post_commit_pin: u64,
    pub confirmed_version: Option<u64>,
    pub table_branch: Option<Seq<char>>,
}

impl View for SidecarTablePin {
    type V = SidecarTablePinModel;

    open spec fn view(&self) -> SidecarTablePinModel {
        SidecarTablePinModel {
            identity: self.identity,
            table_key: self.table_key@,
            table_path: self.table_path@,
            expected_version: self.expected_version,
            post_commit_pin: self.post_commit_pin,
            confirmed_version: self.confirmed_version,
            table_branch: opt_view(self.table_branch),
        }
    }
}

impl Replicate for SidecarTablePin {
    fn replicate(&self) -> (copy: Self) {
        SidecarTablePin {
            identity: self.identity,
            table_key: self.table_key.clone(),
            table_path: self.table_path.clone(),
            expected_version: self.expected_version,
            post_commit_pin: self.post_commit_pin,
            confirmed_version: self.confirmed_version,
            table_branch: replicate_opt(&self.table_branch),
        }
    }
}

/// A table that a schema apply is about to register.
#[derive(Debug, PartialEq, Eq)]
pub struct SidecarTableRegistration {
    pub identity: TableIdentity,
    pub table_key: String,
    /// Location relative to the graph root.
    pub table_path: String,
    pub table_branch: Option<String>,
}

/// What a [`SidecarTableRegistration`] stands for.
pub struct SidecarTableRegistrationModel {
    pub identity: TableIdentity,
    pub table_key: Seq<char>,
    pub table_path: Seq<char>,
    pub table_branch: Option<Seq<char>>,
}

impl View for SidecarTableRegistration {
    type V = SidecarTableRegistrationModel;

    open spec fn view(&self) -> SidecarTableRegistrationModel {
        SidecarTableRegistrationModel {
            identity: self.identity,
            table_key: self.table_key@,
            table_path: self.table_path@,
            table_branch: opt_view(self.table_branch),
        }
    }
}

impl Replicate for SidecarTableRegistration {
    fn replicate(&self) -> (copy: Self) {
        SidecarTableRegistration {
            identity: self.identity,
            table_key: self.table_key.clone(),
            table_path: self.table_path.clone(),
            table_branch: replicate_opt(&self.table_branch),
        }
    }
}

impl Same for SidecarTableRegistration {
    fn same(&self, other: &Self) -> (equal: bool) {
        self.identity == other.identity
            && self.table_key == other.table_key
            && self.table_path == other.table_path
            && same_opt(&self.table_branch, &other.table_branch)
    }
}

/// A change of alias: the identity and the location stay.
#[derive(Debug, PartialEq, Eq)]
pub struct SidecarTableRename {
    pub identity: TableIdentity,
    pub expected_table_key: String,
    pub expected_version: u64,
    pub table_key: String,
    pub table_path: String,
}

/// What a [`SidecarTableRename`] stands for.
pub struct SidecarTableRenameModel {
    pub identity: TableIdentity,
    pub expected_table_key: Seq<char>,
    pub expected_version: u64,
    pub table_key: Seq<char>,
    pub table_path: Seq<char>,
}

impl View for SidecarTableRename {
    type V = SidecarTableRenameModel;

    open spec fn view(&self) -> SidecarTableRenameModel {
        SidecarTableRenameModel {
            identity: self.identity,
            expected_table_key: self.expected_table_key@,
            expected_version: self.expected_version,
            table_key: self.table_key@,
            table_path: self.table_path@,
        }
    }
}

impl Replicate for SidecarTableRename {
    fn replicate(&self) -> (copy: Self) {
        SidecarTableRename {
            identity: self.identity,
            expected_table_key: self.expected_table_key.clone(),
            expected_version: self.expected_version,
            table_key: self.table_key.clone(),
            table_path: self.table_path.clone(),
        }
    }
}

impl Same for SidecarTableRename {
    fn same(&self, other: &Self) -> (equal: bool) {
        self.identity == other.identity
            && self.expected_table_key == other.expected_table_key
            && self.expected_version == other.expected_version
            && self.table_key == other.table_key
            && self.table_path == other.table_path
    }
}

/// A table that a schema apply is about to remove.
#[derive(Debug, PartialEq, Eq)]
pub struct SidecarTombstone {
    pub identity: TableIdentity,
    pub table_key: String,
    /// Manifest version at which the table was active.
    pub tombstone_version: u64,
}

/// What a [`SidecarTombstone`] stands for.
pub struct SidecarTombstoneModel {
    pub identity: TableIdentity,
    pub table_key: Seq<char>,
    pub tombstone_version: u64,
}

impl View for SidecarTombstone {
    type V = SidecarTombstoneModel;

    open spec fn view(&self) -> SidecarTombstoneModel {
        SidecarTombstoneModel {
            identity: self.identity,
            table_key: self.table_key@,
            tombstone_version: self.tombstone_version,
        }
    }
}

impl Replicate for SidecarTombstone {
    fn replicate(&self) -> (copy: Self) {
        SidecarTombstone {
            identity: self.identity,
            table_key: self.table_key.clone(),
            tombstone_version: self.tombstone_version,
        }
    }
}

impl Same for SidecarTombstone {
    fn same(&self, other: &Self) -> (equal: bool) {
        self.identity == other.identity
            && self.table_key == other.table_key
            && self.tombstone_version == other.tombstone_version
    }
}

/// The authority under which an attempt was prepared. Confirmed effects may be
/// rolled forward only while the complete token still holds.
#[derive(Debug, PartialEq, Eq)]
pub struct RecoveryAuthorityToken {
    pub branch_identifier: BranchIdentifier,
    /// Head commit of the graph branch; none on a fresh branch.
    pub graph_head: Option<String>,
    pub schema_identity_domain: String,
    pub schema_ir_hash: String,
    pub schema_identity_version: u32,
}

/// What a [`RecoveryAuthorityToken`] stands for.
pub struct RecoveryAuthorityTokenModel {
    pub branch_identifier: BranchIdentifierModel,
    pub graph_head: Option<Seq<char>>,
    pub schema_identity_domain: Seq<char>,
    pub schema_ir_hash: Seq<char>,
    pub schema_identity_version: u32,
}

impl View for RecoveryAuthorityToken {
    type V = RecoveryAuthorityTokenModel;

    open spec fn view(&self) -> RecoveryAuthorityTokenModel {
        RecoveryAuthorityTokenModel {
            branch_identifier: self.branch_identifier@,
            graph_head: opt_view(self.graph_head),
            schema_identity_domain: self.schema_identity_domain@,
            schema_ir_hash: self.schema_ir_hash@,
            schema_identity_version: self.schema_identity_version,
        }
    }
}

impl Replicate for RecoveryAuthorityToken {
    fn replicate(&self) -> (copy: Self) {
        RecoveryAuthorityToken {
            branch_identifier: self.branch_identifier.replicate(),
            graph_head: replicate_opt(&self.graph_head),
            schema_identity_domain: self.schema_identity_domain.clone(),
            schema_ir_hash: self.schema_ir_hash.clone(),
            schema_identity_version: self.schema_identity_version,
        }
    }
}

impl Same for RecoveryAuthorityToken {
    fn same(&self, other: &Self) -> (equal: bool) {
        self.branch_identifier.same(&other.branch_identifier)
            && same_opt(&self.graph_head, &other.graph_head)
            && self.schema_identity_domain == other.schema_identity_domain
            && self.schema_ir_hash == other.schema_ir_hash
            && self.schema_identity_version == other.schema_identity_version
    }
}

/// The lineage of the attempt, minted once before the sidecar is armed.
#[derive(Debug, PartialEq, Eq)]
pub struct RecoveryLineageIntent {
    pub graph_commit_id: String,
    pub branch: Option<String>,
    pub actor_id: Option<String>,
    pub merged_parent_commit_id: Option<String>,
    pub created_at: i64,
}

/// What a [`RecoveryLineageIntent`] stands for.
pub struct RecoveryLineageIntentModel {
    pub graph_commit_id: Seq<char>,
    pub branch: Option<Seq<char>>,
    pub actor_id: Option<Seq<char>>,
    pub merged_parent_commit_id: Option<Seq<char>>,
    pub created_at: i64,
}

impl View for RecoveryLineageIntent {
    type V = RecoveryLineageIntentModel;

    open spec fn view(&self) -> RecoveryLineageIntentModel {
        RecoveryLineageIntentModel {
            graph_commit_id: self.graph_commit_id@,
            branch: opt_view(self.branch),
            actor_id: opt_view(self.actor_id),
            merged_parent_commit_id: opt_view(self.merged_parent_commit_id),
            created_at: self.created_at,
        }
    }
}

impl Replicate for RecoveryLineageIntent {
    fn replicate(&self) -> (copy: Self) {
        RecoveryLineageIntent {
            graph_commit_id: self.graph_commit_id.clone(),
            branch: replicate_opt(&self.branch),
            actor_id: replicate_opt(&self.actor_id),
            merged_parent_commit_id: replicate_opt(&self.merged_parent_commit_id),
            created_at: self.created_at,
        }
    }
}

/// One exact effect of a mutation or load.
#[derive(Debug, PartialEq, Eq)]
pub struct RecoveryTableEffect {
    pub identity: TableIdentity,
    pub table_key: String,
    pub planned_transaction: StagedTransactionIdentity,
    pub confirmed_transaction: Option<StagedTransactionIdentity>,
}

/// What a [`RecoveryTableEffect`] stands for.
pub struct RecoveryTableEffectModel {
    pub identity: TableIdentity,
    pub table_key: Seq<char>,
    pub planned_transaction: StagedTransactionIdentityModel,
    pub confirmed_transaction: Option<StagedTransactionIdentityModel>,
}

impl View for RecoveryTableEffect {
    type V = RecoveryTableEffectModel;

    open spec fn view(&self) -> RecoveryTableEffectModel {
        RecoveryTableEffectModel {
            identity: self.identity,
            table_key: self.table_key@,
            planned_transaction: self.planned_transaction@,
            confirmed_transaction: opt_view(self.confirmed_transaction),
        }
    }
}

impl Replicate for RecoveryTableEffect {
    fn replicate(&self) -> (copy: Self) {
        RecoveryTableEffect {
            identity: self.identity,
            table_key: self.table_key.clone(),
            planned_transaction: self.planned_transaction.replicate(),
            confirmed_transaction: replicate_opt(&self.confirmed_transaction),
        }
    }
}

/// The confirmed value of one output slot of the manifest delta.
#[derive(Debug, PartialEq, Eq)]
pub struct RecoveryConfirmedTableUpdate {
    pub table_version: u64,
    pub table_branch: Option<String>,
    pub row_count: u64,
    pub version_metadata: TableVersionMetadata,
}

/// What a [`RecoveryConfirmedTableUpdate`] stands for.
pub struct RecoveryConfirmedTableUpdateModel {
    pub table_version: u64,
    pub table_branch: Option<Seq<char>>,
    pub row_count: u64,
    pub version_metadata: TableVersionMetadataModel,
}

impl View for RecoveryConfirmedTableUpdate {
    type V = RecoveryConfirmedTableUpdateModel;

    open spec fn view(&self) -> RecoveryConfirmedTableUpdateModel {
        RecoveryConfirmedTableUpdateModel {
            table_version: self.table_version,
            table_branch: opt_view(self.table_branch),
            row_count: self.row_count,
            version_metadata: self.version_metadata@,
        }
    }
}

impl Replicate for RecoveryConfirmedTableUpdate {
    fn replicate(&self) -> (copy: Self) {
        RecoveryConfirmedTableUpdate {
            table_version: self.table_version,
            table_branch: replicate_opt(&self.table_branch),
            row_count: self.row_count,
            version_metadata: self.version_metadata.replicate(),
        }
    }
}

/// One output slot of the manifest delta.
#[derive(Debug, PartialEq, Eq)]
pub struct RecoveryTableUpdateSlot {
    pub identity: TableIdentity,
    pub table_key: String,
    pub expected_version: u64,
    pub table_branch: Option<String>,
    pub confirmed: Option<RecoveryConfirmedTableUpdate>,
}

/// What a [`RecoveryTableUpdateSlot`] stands for.
pub struct RecoveryTableUpdateSlotModel {
    pub identity: TableIdentity,
    pub table_key: Seq<char>,
    pub expected_version: u64,
    pub table_branch: Option<Seq<char>>,
    pub confirmed: Option<RecoveryConfirmedTableUpdateModel>,
}

impl View for RecoveryTableUpdateSlot {
    type V = RecoveryTableUpdateSlotModel;

    open spec fn view(&self) -> RecoveryTableUpdateSlotModel {
        RecoveryTableUpdateSlotModel {
            identity: self.identity,
            table_key: self.table_key@,
            expected_version: self.expected_version,
            table_branch: opt_view(self.table_branch),
            confirmed: opt_view(self.confirmed),
        }
    }
}

impl Replicate for RecoveryTableUpdateSlot {
    fn replicate(&self) -> (copy: Self) {
        RecoveryTableUpdateSlot {
            identity: self.identity,
            table_key: self.table_key.clone(),
            expected_version: self.expected_version,
            table_branch: replicate_opt(&self.table_branch),
            confirmed: replicate_opt(&self.confirmed),
        }
    }
}

/// The complete manifest delta of an attempt. Aliases and expectations are fixed
/// when the sidecar is armed; the output slots are bound once, on confirmation.
#[derive(Debug, PartialEq, Eq)]
pub struct RecoveryManifestDelta {
    pub table_updates: Vec<RecoveryTableUpdateSlot>,
    pub registrations: Vec<SidecarTableRegistration>,
    pub renames: Vec<SidecarTableRename>,
    pub tombstones: Vec<SidecarTombstone>,
}

/// What a [`RecoveryManifestDelta`] stands for.
pub struct RecoveryManifestDeltaModel {
    pub table_updates: Seq<RecoveryTableUpdateSlotModel>,
    pub registrations: Seq<SidecarTableRegistrationModel>,
    pub renames: Seq<SidecarTableRenameModel>,
    pub tombstones: Seq<SidecarTombstoneModel>,
}

impl View for RecoveryManifestDelta {
    type V = RecoveryManifestDeltaModel;

    open spec fn view(&self) -> RecoveryManifestDeltaModel {
        RecoveryManifestDeltaModel {
            table_updates: views(self.table_updates@),
            registrations: views(self.registrations@),
            renames: views(self.renames@),
            tombstones: views(self.tombstones@),
        }
    }
}

impl Replicate for RecoveryManifestDelta {
    fn replicate(&self) -> (copy: Self) {
        RecoveryManifestDelta {
            table_updates: replicate_vec(&self.table_updates),
            registrations: replicate_vec(&self.registrations),
            renames: replicate_vec(&self.renames),
            tombstones: replicate_vec(&self.tombstones),
        }
    }
}

/// Exact payload of a mutation or load.
#[derive(Debug, PartialEq, Eq)]
pub struct RecoveryProtocolV3 {
    pub authority: RecoveryAuthorityToken,
    pub lineage: RecoveryLineageIntent,
    /// Commit id that every rollback of this attempt publishes under.
    pub rollback_graph_commit_id: String,
    /// Outcomes of the fixed rollback, once prepared. An empty list is a
    /// prepared rollback of lineage alone.
    pub rollback_audit_outcomes: Option<Vec<TableOutcome>>,
    pub effect_phase: RecoveryEffectPhase,
    pub effects: Vec<RecoveryTableEffect>,
    pub intended_delta: RecoveryManifestDelta,
}

/// What a [`RecoveryProtocolV3`] stands for.
pub struct RecoveryProtocolV3Model {
    pub authority: RecoveryAuthorityTokenModel,
    pub lineage: RecoveryLineageIntentModel,
    pub rollback_graph_commit_id: Seq<char>,
    pub rollback_audit_outcomes: Option<Seq<TableOutcomeModel>>,
    pub effect_phase: RecoveryEffectPhase,
    pub effects: Seq<RecoveryTableEffectModel>,
    pub intended_delta: RecoveryManifestDeltaModel,
}

impl View for RecoveryProtocolV3 {
    type V = RecoveryProtocolV3Model;

    open spec fn view(&self) -> RecoveryProtocolV3Model {
        RecoveryProtocolV3Model {
            authority: self.authority@,
            lineage: self.lineage@,
            rollback_graph_commit_id: self.rollback_graph_commit_id@,
            rollback_audit_outcomes: match self.rollback_audit_outcomes { Some(list) => Some(views(list@)), None => None },
            effect_phase: self.effect_phase,
            effects: views(self.effects@),
            intended_delta: self.intended_delta@,
        }
    }
}

impl Replicate for RecoveryProtocolV3 {
    fn replicate(&self) -> (copy: Self) {
        RecoveryProtocolV3 {
            authority: self.authority.replicate(),
            lineage: self.lineage.replicate(),
            rollback_graph_commit_id: self.rollback_graph_commit_id.clone(),
            rollback_audit_outcomes: match &self.rollback_audit_outcomes { Some(list) => Some(replicate_vec(list)), None => None },
            effect_phase: self.effect_phase,
            effects: replicate_vec(&self.effects),
            intended_delta: self.intended_delta.replicate(),
        }
    }
}

/// What a branch merge does to one table.
#[derive(Debug, PartialEq, Eq)]
pub enum RecoveryBranchMergeEffectKind {
    /// One or more data commits on the target table.
    MultiCommitHead {
        /// Version that a first-touch target branch is forked at.
        source_fork_version: Option<u64>,
        /// The data transactions, in commit order.
        planned_transactions: Vec<StagedTransactionIdentity>,
        confirmed_version: Option<u64>,
        confirmed_branch_identifier: Option<BranchIdentifier>,
    },
    /// A first-touch target branch whose head stays at the fork version.
    RefOnlyFork {
        source_version: u64,
        confirmed_branch_identifier: Option<BranchIdentifier>,
    },
}

/// What a [`RecoveryBranchMergeEffectKind`] stands for.
pub enum RecoveryBranchMergeEffectKindModel {
    MultiCommitHead { source_fork_version: Option<u64>, planned_transactions: Seq<StagedTransactionIdentityModel>, confirmed_version: Option<u64>, confirmed_branch_identifier: Option<BranchIdentifierModel> },
    RefOnlyFork { source_version: u64, confirmed_branch_identifier: Option<BranchIdentifierModel> },
}

impl View for RecoveryBranchMergeEffectKind {
    type V = RecoveryBranchMergeEffectKindModel;

    open spec fn view(&self) -> RecoveryBranchMergeEffectKindModel {
        match *self {
            RecoveryBranchMergeEffectKind::MultiCommitHead { source_fork_version, planned_transactions, confirmed_version, confirmed_branch_identifier } => RecoveryBranchMergeEffectKindModel::MultiCommitHead {
                source_fork_version: source_fork_version,
                planned_transactions: views(planned_transactions@),
                confirmed_version: confirmed_version,
                confirmed_branch_identifier: opt_view(confirmed_branch_identifier),
            },
            RecoveryBranchMergeEffectKind::RefOnlyFork { source_version, confirmed_branch_identifier } => RecoveryBranchMergeEffectKindModel::RefOnlyFork {
                source_version: source_version,
                confirmed_branch_identifier: opt_view(confirmed_branch_identifier),
            },
        }
    }
}

impl Replicate for RecoveryBranchMergeEffectKind {
    fn replicate(&self) -> (copy: Self) {
        match self {
            RecoveryBranchMergeEffectKind::MultiCommitHead { source_fork_version, planned_transactions, confirmed_version, confirmed_branch_identifier } => RecoveryBranchMergeEffectKind::MultiCommitHead {
                source_fork_version: *source_fork_version,
                planned_transactions: replicate_vec(planned_transactions),
                confirmed_version: *confirmed_version,
                confirmed_branch_identifier: replicate_opt(confirmed_branch_identifier),
            },
            RecoveryBranchMergeEffectKind::RefOnlyFork { source_version, confirmed_branch_identifier } => RecoveryBranchMergeEffectKind::RefOnlyFork {
                source_version: *source_version,
                confirmed_branch_identifier: replicate_opt(confirmed_branch_identifier),
            },
        }
    }
}

/// One physical effect of a branch merge.
#[derive(Debug, PartialEq, Eq)]
pub struct RecoveryBranchMergeEffect {
    pub identity: TableIdentity,
    pub table_key: String,
    pub kind: RecoveryBranchMergeEffectKind,
}

/// What a [`RecoveryBranchMergeEffect`] stands for.
pub struct RecoveryBranchMergeEffectModel {
    pub identity: TableIdentity,
    pub table_key: Seq<char>,
    pub kind: RecoveryBranchMergeEffectKindModel,
}

impl View for RecoveryBranchMergeEffect {
    type V = RecoveryBranchMergeEffectModel;

    open spec fn view(&self) -> RecoveryBranchMergeEffectModel {
        RecoveryBranchMergeEffectModel {
            identity: self.identity,
            table_key: self.table_key@,
            kind: self.kind@,
        }
    }
}

impl Replicate for RecoveryBranchMergeEffect {
    fn replicate(&self) -> (copy: Self) {
        RecoveryBranchMergeEffect {
            identity: self.identity,
            table_key: self.table_key.clone(),
            kind: self.kind.replicate(),
        }
    }
}

/// Exact payload of a branch merge.
#[derive(Debug, PartialEq, Eq)]
pub struct RecoveryProtocolV4 {
    pub authority: RecoveryAuthorityToken,
    pub lineage: RecoveryLineageIntent,
    /// Commit id that every rollback of this attempt publishes under.
    pub rollback_graph_commit_id: String,
    /// Outcomes of the fixed rollback, once prepared. An empty list is a
    /// prepared rollback of lineage alone.
    pub rollback_audit_outcomes: Option<Vec<TableOutcome>>,
    pub effect_phase: RecoveryEffectPhase,
    pub effects: Vec<RecoveryBranchMergeEffect>,
    pub intended_delta: RecoveryManifestDelta,
}

/// What a [`RecoveryProtocolV4`] stands for.
pub struct RecoveryProtocolV4Model {
    pub authority: RecoveryAuthorityTokenModel,
    pub lineage: RecoveryLineageIntentModel,
    pub rollback_graph_commit_id: Seq<char>,
    pub rollback_audit_outcomes: Option<Seq<TableOutcomeModel>>,
    pub effect_phase: RecoveryEffectPhase,
    pub effects: Seq<RecoveryBranchMergeEffectModel>,
    pub intended_delta: RecoveryManifestDeltaModel,
}

impl View for RecoveryProtocolV4 {
    type V = RecoveryProtocolV4Model;

    open spec fn view(&self) -> RecoveryProtocolV4Model {
        RecoveryProtocolV4Model {
            authority: self.authority@,
            lineage: self.lineage@,
            rollback_graph_commit_id: self.rollback_graph_commit_id@,
            rollback_audit_outcomes: match self.rollback_audit_outcomes { Some(list) => Some(views(list@)), None => None },
            effect_phase: self.effect_phase,
            effects: views(self.effects@),
            intended_delta: self.intended_delta@,
        }
    }
}

impl Replicate for RecoveryProtocolV4 {
    fn replicate(&self) -> (copy: Self) {
        RecoveryProtocolV4 {
            authority: self.authority.replicate(),
            lineage: self.lineage.replicate(),
            rollback_graph_commit_id: self.rollback_graph_commit_id.clone(),
            rollback_audit_outcomes: match &self.rollback_audit_outcomes { Some(list) => Some(replicate_vec(list)), None => None },
            effect_phase: self.effect_phase,
            effects: replicate_vec(&self.effects),
            intended_delta: self.intended_delta.replicate(),
        }
    }
}

/// What a schema apply does to one table.
#[derive(Debug, PartialEq, Eq)]
pub enum RecoverySchemaApplyEffectKind {
    /// The replacement of a table that the manifest owns.
    ExistingOverwrite {
        planned_transaction: StagedTransactionIdentity,
        confirmed_transaction: Option<StagedTransactionIdentity>,
    },
    /// The first commit at the location of a new table.
    FirstTouchDataset {
        planned_transaction: StagedTransactionIdentity,
        confirmed_transaction: Option<StagedTransactionIdentity>,
    },
}

/// What a [`RecoverySchemaApplyEffectKind`] stands for.
pub enum RecoverySchemaApplyEffectKindModel {
    ExistingOverwrite { planned_transaction: StagedTransactionIdentityModel, confirmed_transaction: Option<StagedTransactionIdentityModel> },
    FirstTouchDataset { planned_transaction: StagedTransactionIdentityModel, confirmed_transaction: Option<StagedTransactionIdentityModel> },
}

impl View for RecoverySchemaApplyEffectKind {
    type V = RecoverySchemaApplyEffectKindModel;

    open spec fn view(&self) -> RecoverySchemaApplyEffectKindModel {
        match *self {
            RecoverySchemaApplyEffectKind::ExistingOverwrite { planned_transaction, confirmed_transaction } => RecoverySchemaApplyEffectKindModel::ExistingOverwrite {
                planned_transaction: planned_transaction@,
                confirmed_transaction: opt_view(confirmed_transaction),
            },
            RecoverySchemaApplyEffectKind::FirstTouchDataset { planned_transaction, confirmed_transaction } => RecoverySchemaApplyEffectKindModel::FirstTouchDataset {
                planned_transaction: planned_transaction@,
                confirmed_transaction: opt_view(confirmed_transaction),
            },
        }
    }
}

impl Replicate for RecoverySchemaApplyEffectKind {
    fn replicate(&self) -> (copy: Self) {
        match self {
            RecoverySchemaApplyEffectKind::ExistingOverwrite { planned_transaction, confirmed_transaction } => RecoverySchemaApplyEffectKind::ExistingOverwrite {
                planned_transaction: planned_transaction.replicate(),
                confirmed_transaction: replicate_opt(confirmed_transaction),
            },
            RecoverySchemaApplyEffectKind::FirstTouchDataset { planned_transaction, confirmed_transaction } => RecoverySchemaApplyEffectKind::FirstTouchDataset {
                planned_transaction: planned_transaction.replicate(),
                confirmed_transaction: replicate_opt(confirmed_transaction),
            },
        }
    }
}

/// One physical effect of a schema apply.
#[derive(Debug, PartialEq, Eq)]
pub struct RecoverySchemaApplyEffect {
    pub identity: TableIdentity,
    pub table_key: String,
    pub kind: RecoverySchemaApplyEffectKind,
}

/// What a [`RecoverySchemaApplyEffect`] stands for.
pub struct RecoverySchemaApplyEffectModel {
    pub identity: TableIdentity,
    pub table_key: Seq<char>,
    pub kind: RecoverySchemaApplyEffectKindModel,
}

impl View for RecoverySchemaApplyEffect {
    type V = RecoverySchemaApplyEffectModel;

    open spec fn view(&self) -> RecoverySchemaApplyEffectModel {
        RecoverySchemaApplyEffectModel {
            identity: self.identity,
            table_key: self.table_key@,
            kind: self.kind@,
        }
    }
}

impl Replicate for RecoverySchemaApplyEffect {
    fn replicate(&self) -> (copy: Self) {
        RecoverySchemaApplyEffect {
            identity: self.identity,
            table_key: self.table_key.clone(),
            kind: self.kind.replicate(),
        }
    }
}

/// Exact payload of a schema apply.
#[derive(Debug, PartialEq, Eq)]
pub struct RecoveryProtocolV7 {
    pub authority: RecoveryAuthorityToken,
    pub lineage: RecoveryLineageIntent,
    /// Commit id that every rollback of this attempt publishes under.
    pub rollback_graph_commit_id: String,
    /// Outcomes of the fixed rollback, once prepared. An empty list is a
    /// prepared rollback of lineage alone.
    pub rollback_audit_outcomes: Option<Vec<TableOutcome>>,
    pub target_schema_ir_hash: String,
    pub effect_phase: RecoveryEffectPhase,
    pub effects: Vec<RecoverySchemaApplyEffect>,
    pub intended_delta: RecoveryManifestDelta,
}

/// What a [`RecoveryProtocolV7`] stands for.
pub struct RecoveryProtocolV7Model {
    pub authority: RecoveryAuthorityTokenModel,
    pub lineage: RecoveryLineageIntentModel,
    pub rollback_graph_commit_id: Seq<char>,
    pub rollback_audit_outcomes: Option<Seq<TableOutcomeModel>>,
    pub target_schema_ir_hash: Seq<char>,
    pub effect_phase: RecoveryEffectPhase,
    pub effects: Seq<RecoverySchemaApplyEffectModel>,
    pub intended_delta: RecoveryManifestDeltaModel,
}

impl View for RecoveryProtocolV7 {
    type V = RecoveryProtocolV7Model;

    open spec fn view(&self) -> RecoveryProtocolV7Model {
        RecoveryProtocolV7Model {
            authority: self.authority@,
            lineage: self.lineage@,
            rollback_graph_commit_id: self.rollback_graph_commit_id@,
            rollback_audit_outcomes: match self.rollback_audit_outcomes { Some(list) => Some(views(list@)), None => None },
            target_schema_ir_hash: self.target_schema_ir_hash@,
            effect_phase: self.effect_phase,
            effects: views(self.effects@),
            intended_delta: self.intended_delta@,
        }
    }
}

impl Replicate for RecoveryProtocolV7 {
    fn replicate(&self) -> (copy: Self) {
        RecoveryProtocolV7 {
            authority: self.authority.replicate(),
            lineage: self.lineage.replicate(),
            rollback_graph_commit_id: self.rollback_graph_commit_id.clone(),
            rollback_audit_outcomes: match &self.rollback_audit_outcomes { Some(list) => Some(replicate_vec(list)), None => None },
            target_schema_ir_hash: self.target_schema_ir_hash.clone(),
            effect_phase: self.effect_phase,
            effects: replicate_vec(&self.effects),
            intended_delta: self.intended_delta.replicate(),
        }
    }
}

/// One index effect. The fork version is present only when the graph branch did
/// not yet own its native table branch when the sidecar was armed.
#[derive(Debug, PartialEq, Eq)]
pub struct RecoveryEnsureIndicesEffect {
    pub identity: TableIdentity,
    pub table_key: String,
    pub planned_transaction: StagedTransactionIdentity,
    pub source_fork_version: Option<u64>,
    pub confirmed_transaction: Option<StagedTransactionIdentity>,
    pub confirmed_branch_identifier: Option<BranchIdentifier>,
}

/// What a [`RecoveryEnsureIndicesEffect`] stands for.
pub struct RecoveryEnsureIndicesEffectModel {
    pub identity: TableIdentity,
    pub table_key: Seq<char>,
    pub planned_transaction: StagedTransactionIdentityModel,
    pub source_fork_version: Option<u64>,
    pub confirmed_transaction: Option<StagedTransactionIdentityModel>,
    pub confirmed_branch_identifier: Option<BranchIdentifierModel>,
}

impl View for RecoveryEnsureIndicesEffect {
    type V = RecoveryEnsureIndicesEffectModel;

    open spec fn view(&self) -> RecoveryEnsureIndicesEffectModel {
        RecoveryEnsureIndicesEffectModel {
            identity: self.identity,
            table_key: self.table_key@,
            planned_transaction: self.planned_transaction@,
            source_fork_version: self.source_fork_version,
            confirmed_transaction: opt_view(self.confirmed_transaction),
            confirmed_branch_identifier: opt_view(self.confirmed_branch_identifier),
        }
    }
}

impl Replicate for RecoveryEnsureIndicesEffect {
    fn replicate(&self) -> (copy: Self) {
        RecoveryEnsureIndicesEffect {
            identity: self.identity,
            table_key: self.table_key.clone(),
            planned_transaction: self.planned_transaction.replicate(),
            source_fork_version: self.source_fork_version,
            confirmed_transaction: replicate_opt(&self.confirmed_transaction),
            confirmed_branch_identifier: replicate_opt(&self.confirmed_branch_identifier),
        }
    }
}

/// Exact payload of an ensure-indices run.
#[derive(Debug, PartialEq, Eq)]
pub struct RecoveryProtocolV8 {
    pub authority: RecoveryAuthorityToken,
    pub lineage: RecoveryLineageIntent,
    /// Commit id that every rollback of this attempt publishes under.
    pub rollback_graph_commit_id: String,
    /// Outcomes of the fixed rollback, once prepared. An empty list is a
    /// prepared rollback of lineage alone.
    pub rollback_audit_outcomes: Option<Vec<TableOutcome>>,
    pub effect_phase: RecoveryEffectPhase,
    pub effects: Vec<RecoveryEnsureIndicesEffect>,
    pub intended_delta: RecoveryManifestDelta,
}

/// What a [`RecoveryProtocolV8`] stands for.
pub struct RecoveryProtocolV8Model {
    pub authority: RecoveryAuthorityTokenModel,
    pub lineage: RecoveryLineageIntentModel,
    pub rollback_graph_commit_id: Seq<char>,
    pub rollback_audit_outcomes: Option<Seq<TableOutcomeModel>>,
    pub effect_phase: RecoveryEffectPhase,
    pub effects: Seq<RecoveryEnsureIndicesEffectModel>,
    pub intended_delta: RecoveryManifestDeltaModel,
}

impl View for RecoveryProtocolV8 {
    type V = RecoveryProtocolV8Model;

    open spec fn view(&self) -> RecoveryProtocolV8Model {
        RecoveryProtocolV8Model {
            authority: self.authority@,
            lineage: self.lineage@,
            rollback_graph_commit_id: self.rollback_graph_commit_id@,
            rollback_audit_outcomes: match self.rollback_audit_outcomes { Some(list) => Some(views(list@)), None => None },
            effect_phase: self.effect_phase,
            effects: views(self.effects@),
            intended_delta: self.intended_delta@,
        }
    }
}

impl Replicate for RecoveryProtocolV8 {
    fn replicate(&self) -> (copy: Self) {
        RecoveryProtocolV8 {
            authority: self.authority.replicate(),
            lineage: self.lineage.replicate(),
            rollback_graph_commit_id: self.rollback_graph_commit_id.clone(),
            rollback_audit_outcomes: match &self.rollback_audit_outcomes { Some(list) => Some(replicate_vec(list)), None => None },
            effect_phase: self.effect_phase,
            effects: replicate_vec(&self.effects),
            intended_delta: self.intended_delta.replicate(),
        }
    }
}

/// Fixed rollback identity of a loose ensure-indices run.
#[derive(Debug, PartialEq, Eq)]
pub struct RecoveryEnsureIndicesRollbackV6 {
    pub rollback_graph_commit_id: String,
    pub rollback_audit_outcomes: Option<Vec<TableOutcome>>,
}

/// What a [`RecoveryEnsureIndicesRollbackV6`] stands for.
pub struct RecoveryEnsureIndicesRollbackV6Model {
    pub rollback_graph_commit_id: Seq<char>,
    pub rollback_audit_outcomes: Option<Seq<TableOutcomeModel>>,
}

impl View for RecoveryEnsureIndicesRollbackV6 {
    type V = RecoveryEnsureIndicesRollbackV6Model;

    open spec fn view(&self) -> RecoveryEnsureIndicesRollbackV6Model {
        RecoveryEnsureIndicesRollbackV6Model {
            rollback_graph_commit_id: self.rollback_graph_commit_id@,
            rollback_audit_outcomes: match self.rollback_audit_outcomes { Some(list) => Some(views(list@)), None => None },
        }
    }
}

impl Replicate for RecoveryEnsureIndicesRollbackV6 {
    fn replicate(&self) -> (copy: Self) {
        RecoveryEnsureIndicesRollbackV6 {
            rollback_graph_commit_id: self.rollback_graph_commit_id.clone(),
            rollback_audit_outcomes: match &self.rollback_audit_outcomes { Some(list) => Some(replicate_vec(list)), None => None },
        }
    }
}

/// The durable record of one attempt.
#[derive(Debug, PartialEq, Eq)]
pub struct RecoverySidecar {
    pub schema_version: u32,
    pub operation_id: String,
    pub started_at: String,
    pub branch: Option<String>,
    pub actor_id: Option<String>,
    pub writer_kind: SidecarKind,
    pub tables: Vec<SidecarTablePin>,
    /// Branch merge only: head commit of the source branch.
    pub merge_source_commit_id: Option<String>,
    pub additional_registrations: Vec<SidecarTableRegistration>,
    pub tombstones: Vec<SidecarTombstone>,
    /// Schema apply only: whether its manifest commit is known to be durable.
    pub schema_apply_manifest_published: bool,
    pub schema_apply_target_schema_ir_hash: Option<String>,
    pub protocol_v3: Option<RecoveryProtocolV3>,
    pub protocol_v4: Option<RecoveryProtocolV4>,
    pub protocol_v7: Option<RecoveryProtocolV7>,
    pub protocol_v8: Option<RecoveryProtocolV8>,
    pub ensure_indices_rollback_v6: Option<RecoveryEnsureIndicesRollbackV6>,
}

/// What a [`RecoverySidecar`] stands for.
pub struct RecoverySidecarModel {
    pub schema_version: u32,
    pub operation_id: Seq<char>,
    pub started_at: Seq<char>,
    pub branch: Option<Seq<char>>,
    pub actor_id: Option<Seq<char>>,
    pub writer_kind: SidecarKind,
    pub tables: Seq<SidecarTablePinModel>,
    pub merge_source_commit_id: Option<Seq<char>>,
    pub additional_registrations: Seq<SidecarTableRegistrationModel>,
    pub tombstones: Seq<SidecarTombstoneModel>,
    pub schema_apply_manifest_published: bool,
    pub schema_apply_target_schema_ir_hash: Option<Seq<char>>,
    pub protocol_v3: Option<RecoveryProtocolV3Model>,
    pub protocol_v4: Option<RecoveryProtocolV4Model>,
    pub protocol_v7: Option<RecoveryProtocolV7Model>,
    pub protocol_v8: Option<RecoveryProtocolV8Model>,
    pub ensure_indices_rollback_v6: Option<RecoveryEnsureIndicesRollbackV6Model>,
}

impl View for RecoverySidecar {
    type V = RecoverySidecarModel;

    open spec fn view(&self) -> RecoverySidecarModel {
        RecoverySidecarModel {
            schema_version: self.schema_version,
            operation_id: self.operation_id@,
            started_at: self.started_at@,
            branch: opt_view(self.branch),
            actor_id: opt_view(self.actor_id),
            writer_kind: self.writer_kind,
            tables: views(self.tables@),
            merge_source_commit_id: opt_view(self.merge_source_commit_id),
            additional_registrations: views(self.additional_registrations@),
            tombstones: views(self.tombstones@),
            schema_apply_manifest_published: self.schema_apply_manifest_published,
            schema_apply_target_schema_ir_hash: opt_view(self.schema_apply_target_schema_ir_hash),
            protocol_v3: opt_view(self.protocol_v3),
            protocol_v4: opt_view(self.protocol_v4),
            protocol_v7: opt_view(self.protocol_v7),
            protocol_v8: opt_view(self.protocol_v8),
            ensure_indices_rollback_v6: opt_view(self.ensure_indices_rollback_v6),
        }
    }
}

impl Replicate for RecoverySidecar {
    fn replicate(&self) -> (copy: Self) {
        RecoverySidecar {
            schema_version: self.schema_version,
            operation_id: self.operation_id.clone(),
            started_at: self.started_at.clone(),
            branch: replicate_opt(&self.branch),
            actor_id: replicate_opt(&self.actor_id),
            writer_kind: self.writer_kind,
            tables: replicate_vec(&self.tables),
            merge_source_commit_id: replicate_opt(&self.merge_source_commit_id),
            additional_registrations: replicate_vec(&self.additional_registrations),
            tombstones: replicate_vec(&self.tombstones),
            schema_apply_manifest_published: self.schema_apply_manifest_published,
            schema_apply_target_schema_ir_hash: replicate_opt(&self.schema_apply_target_schema_ir_hash),
            protocol_v3: replicate_opt(&self.protocol_v3),
            protocol_v4: replicate_opt(&self.protocol_v4),
            protocol_v7: replicate_opt(&self.protocol_v7),
            protocol_v8: replicate_opt(&self.protocol_v8),
            ensure_indices_rollback_v6: replicate_opt(&self.ensure_indices_rollback_v6),
        }
    }
}

impl RecoveryBranchMergeEffectKindModel {
    /// Version that a first-touch target branch is forked at.
    pub open spec fn fork_version(self) -> Option<u64> {
        match self {
            RecoveryBranchMergeEffectKindModel::MultiCommitHead { source_fork_version, .. } =>
                source_fork_version,
            RecoveryBranchMergeEffectKindModel::RefOnlyFork { source_version, .. } => Some(
                source_version,
            ),
        }
    }

    /// The identity of the target branch, once confirmed.
    pub open spec fn confirmed_branch(self) -> Option<BranchIdentifierModel> {
        match self {
            RecoveryBranchMergeEffectKindModel::MultiCommitHead {
                confirmed_branch_identifier,
                ..
            } => confirmed_branch_identifier,
            RecoveryBranchMergeEffectKindModel::RefOnlyFork { confirmed_branch_identifier, .. } =>
                confirmed_branch_identifier,
        }
    }
}

impl RecoveryBranchMergeEffectKind {
    /// Version that a first-touch target branch is forked at.
    pub fn source_fork_version(&self) -> (version: Option<u64>)
        ensures
            version == self@.fork_version(),
    {
        match self {
            RecoveryBranchMergeEffectKind::MultiCommitHead { source_fork_version, .. } =>
                *source_fork_version,
            RecoveryBranchMergeEffectKind::RefOnlyFork { source_version, .. } => Some(
                *source_version,
            ),
        }
    }

    /// The identity of the target branch, once confirmed.
    pub fn confirmed_branch_identifier(&self) -> (identifier: Option<&BranchIdentifier>)
        ensures
            opt_view(identifier) == self@.confirmed_branch(),
    {
        match self {
            RecoveryBranchMergeEffectKind::MultiCommitHead {
                confirmed_branch_identifier,
                ..
            } => confirmed_branch_identifier.as_ref(),
            RecoveryBranchMergeEffectKind::RefOnlyFork { confirmed_branch_identifier, .. } =>
                confirmed_branch_identifier.as_ref(),
        }
    }
}

impl RecoverySchemaApplyEffectKindModel {
    /// The planned transaction.
    pub open spec fn planned(self) -> StagedTransactionIdentityModel {
        match self {
            RecoverySchemaApplyEffectKindModel::ExistingOverwrite { planned_transaction, .. } =>
                planned_transaction,
            RecoverySchemaApplyEffectKindModel::FirstTouchDataset { planned_transaction, .. } =>
                planned_transaction,
        }
    }

    /// The confirmed transaction, once there is one.
    pub open spec fn confirmed(self) -> Option<StagedTransactionIdentityModel> {
        match self {
            RecoverySchemaApplyEffectKindModel::ExistingOverwrite { confirmed_transaction, .. } =>
                confirmed_transaction,
            RecoverySchemaApplyEffectKindModel::FirstTouchDataset { confirmed_transaction, .. } =>
                confirmed_transaction,
        }
    }

    /// The same effect with a confirmed transaction.
    pub open spec fn with_confirmed(self, transaction: StagedTransactionIdentityModel) -> Self {
        match self {
            RecoverySchemaApplyEffectKindModel::ExistingOverwrite { planned_transaction, .. } =>
                RecoverySchemaApplyEffectKindModel::ExistingOverwrite {
                planned_transaction,
                confirmed_transaction: Some(transaction),
            },
            RecoverySchemaApplyEffectKindModel::FirstTouchDataset { planned_transaction, .. } =>
                RecoverySchemaApplyEffectKindModel::FirstTouchDataset {
                planned_transaction,
                confirmed_transaction: Some(transaction),
            },
        }
    }
}

impl RecoverySchemaApplyEffectKind {
    /// The planned transaction.
    pub fn planned_transaction(&self) -> (transaction: &StagedTransactionIdentity)
        ensures
            transaction@ == self@.planned(),
    {
        match self {
            RecoverySchemaApplyEffectKind::ExistingOverwrite { planned_transaction, .. } =>
                planned_transaction,
            RecoverySchemaApplyEffectKind::FirstTouchDataset { planned_transaction, .. } =>
                planned_transaction,
        }
    }

    /// The confirmed transaction, once there is one.
    pub fn confirmed_transaction(&self) -> (transaction: Option<&StagedTransactionIdentity>)
        ensures
            opt_view(transaction) == self@.confirmed(),
    {
        match self {
            RecoverySchemaApplyEffectKind::ExistingOverwrite { confirmed_transaction, .. } =>
                confirmed_transaction.as_ref(),
            RecoverySchemaApplyEffectKind::FirstTouchDataset { confirmed_transaction, .. } =>
                confirmed_transaction.as_ref(),
        }
    }

    /// Records the confirmed transaction.
    pub fn set_confirmed_transaction(&mut self, transaction: StagedTransactionIdentity)
        ensures
            final(self)@ == old(self)@.with_confirmed(transaction@),
    {
        match self {
            RecoverySchemaApplyEffectKind::ExistingOverwrite { confirmed_transaction, .. } => {
                *confirmed_transaction = Some(transaction);
            },
            RecoverySchemaApplyEffectKind::FirstTouchDataset { confirmed_transaction, .. } => {
                *confirmed_transaction = Some(transaction);
            },
        }
    }

    /// Whether this is the first commit at the location of a new table.
    pub fn is_first_touch(&self) -> (answer: bool)
        ensures
            answer == (self@ is FirstTouchDataset),
    {
        match self {
            RecoverySchemaApplyEffectKind::FirstTouchDataset { .. } => true,
            RecoverySchemaApplyEffectKind::ExistingOverwrite { .. } => false,
        }
    }
}

impl RecoveryEnsureIndicesEffect {
    /// Whether the graph branch did not yet own its native table branch.
    pub fn is_first_touch(&self) -> (answer: bool)
        ensures
            answer == (self@.source_fork_version is Some),
    {
        self.source_fork_version.is_some()
    }
}

} // verus!
