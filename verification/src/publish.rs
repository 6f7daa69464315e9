//! What recovery publishes: the manifest changes with their expectations, the
//! lineage they are recorded under, the condition that they are published on, and
//! the audit row that describes them.

use vstd::prelude::*;

use crate::db::{clock_fault, fresh_ulid, now_micros};
use crate::error::{internal, OmniError, OmniErrorModel};
use crate::identity::{bad_alias, path_of, table_path_for_identity, IdentityMap, TableIdentity};
use crate::lookup::Identified;
use crate::sidecar::{
    kind_text, BranchIdentifier, BranchIdentifierModel, RecoveryAuthorityToken,
    RecoveryAuthorityTokenModel, RecoveryLineageIntent, RecoveryLineageIntentModel, RecoverySidecar,
    RecoverySidecarModel, SidecarKind, TableOutcome, TableOutcomeModel, TableVersionMetadata,
    TableVersionMetadataModel, RECOVERY_ACTOR,
};
use crate::text::{integer_of, parse_i64};
use crate::value::{opt_view, replicate_opt, views, Replicate};

verus! {

/// A new version of a table.
#[derive(Debug, PartialEq, Eq)]
pub struct SubTableUpdate {
    pub identity: TableIdentity,
    pub table_key: String,
    pub table_version: u64,
    pub table_branch: Option<String>,
    pub row_count: u64,
    pub version_metadata: TableVersionMetadata,
}

/// What a [`SubTableUpdate`] stands for.
pub struct SubTableUpdateModel {
    pub identity: TableIdentity,
    pub table_key: Seq<char>,
    pub table_version: u64,
    pub table_branch: Option<Seq<char>>,
    pub row_count: u64,
    pub version_metadata: TableVersionMetadataModel,
}

impl View for SubTableUpdate {
    type V = SubTableUpdateModel;

    open spec fn view(&self) -> SubTableUpdateModel {
        SubTableUpdateModel {
            identity: self.identity,
            table_key: self.table_key@,
            table_version: self.table_version,
            table_branch: opt_view(self.table_branch),
            row_count: self.row_count,
            version_metadata: self.version_metadata@,
        }
    }
}

impl Identified for SubTableUpdate {
    open spec fn identity_of(model: SubTableUpdateModel) -> TableIdentity {
        model.identity
    }

    fn identity(&self) -> (identity: TableIdentity) {
        self.identity
    }
}

impl Replicate for SubTableUpdate {
    fn replicate(&self) -> (copy: Self) {
        SubTableUpdate {
            identity: self.identity,
            table_key: self.table_key.clone(),
            table_version: self.table_version,
            table_branch: replicate_opt(&self.table_branch),
            row_count: self.row_count,
            version_metadata: self.version_metadata.replicate(),
        }
    }
}

/// A new table.
#[derive(Debug, PartialEq, Eq)]
pub struct TableRegistration {
    pub identity: TableIdentity,
    pub table_key: String,
    pub table_path: String,
}

/// What a [`TableRegistration`] stands for.
pub struct TableRegistrationModel {
    pub identity: TableIdentity,
    pub table_key: Seq<char>,
    pub table_path: Seq<char>,
}

impl View for TableRegistration {
    type V = TableRegistrationModel;

    open spec fn view(&self) -> TableRegistrationModel {
        TableRegistrationModel {
            identity: self.identity,
            table_key: self.table_key@,
            table_path: self.table_path@,
        }
    }
}

/// A new alias of a table.
#[derive(Debug, PartialEq, Eq)]
pub struct TableRename {
    pub identity: TableIdentity,
    pub expected_table_key: String,
    pub table_key: String,
    pub table_path: String,
}

/// What a [`TableRename`] stands for.
pub struct TableRenameModel {
    pub identity: TableIdentity,
    pub expected_table_key: Seq<char>,
    pub table_key: Seq<char>,
    pub table_path: Seq<char>,
}

impl View for TableRename {
    type V = TableRenameModel;

    open spec fn view(&self) -> TableRenameModel {
        TableRenameModel {
            identity: self.identity,
            expected_table_key: self.expected_table_key@,
            table_key: self.table_key@,
            table_path: self.table_path@,
        }
    }
}

/// The removal of a table.
#[derive(Debug, PartialEq, Eq)]
pub struct TableTombstone {
    pub identity: TableIdentity,
    pub table_key: String,
    pub tombstone_version: u64,
}

/// What a [`TableTombstone`] stands for.
pub struct TableTombstoneModel {
    pub identity: TableIdentity,
    pub table_key: Seq<char>,
    pub tombstone_version: u64,
}

impl View for TableTombstone {
    type V = TableTombstoneModel;

    open spec fn view(&self) -> TableTombstoneModel {
        TableTombstoneModel {
            identity: self.identity,
            table_key: self.table_key@,
            tombstone_version: self.tombstone_version,
        }
    }
}

/// One change of the manifest.
#[derive(Debug, PartialEq, Eq)]
pub enum ManifestChange {
    Update(SubTableUpdate),
    RegisterTable(TableRegistration),
    RenameTable(TableRename),
    Tombstone(TableTombstone),
}

/// What a [`ManifestChange`] stands for.
pub enum ManifestChangeModel {
    Update(SubTableUpdateModel),
    RegisterTable(TableRegistrationModel),
    RenameTable(TableRenameModel),
    Tombstone(TableTombstoneModel),
}

impl View for ManifestChange {
    type V = ManifestChangeModel;

    open spec fn view(&self) -> ManifestChangeModel {
        match *self {
            ManifestChange::Update(update) => ManifestChangeModel::Update(update@),
            ManifestChange::RegisterTable(table) => ManifestChangeModel::RegisterTable(table@),
            ManifestChange::RenameTable(rename) => ManifestChangeModel::RenameTable(rename@),
            ManifestChange::Tombstone(tombstone) => ManifestChangeModel::Tombstone(tombstone@),
        }
    }
}

/// The alias and the version that a table has to have for a publish to go through.
#[derive(Debug, PartialEq, Eq)]
pub struct TableVersionExpectation {
    pub table_key: String,
    pub table_version: u64,
}

/// What a [`TableVersionExpectation`] stands for.
pub struct TableVersionExpectationModel {
    pub table_key: Seq<char>,
    pub table_version: u64,
}

impl View for TableVersionExpectation {
    type V = TableVersionExpectationModel;

    open spec fn view(&self) -> TableVersionExpectationModel {
        TableVersionExpectationModel {
            table_key: self.table_key@,
            table_version: self.table_version,
        }
    }
}

/// Changes of the manifest, with what they expect of the tables.
#[derive(Debug)]
pub struct ChangeSet {
    pub changes: Vec<ManifestChange>,
    pub expected: IdentityMap<TableVersionExpectation>,
}

/// What a [`ChangeSet`] stands for.
#[verifier::ext_equal]
pub struct ChangeSetModel {
    pub changes: Seq<ManifestChangeModel>,
    pub expected: Map<TableIdentity, TableVersionExpectationModel>,
}

impl View for ChangeSet {
    type V = ChangeSetModel;

    open spec fn view(&self) -> ChangeSetModel {
        ChangeSetModel { changes: views(self.changes@), expected: self.expected@ }
    }
}

impl ChangeSetModel {
    /// No changes.
    pub open spec fn none() -> Self {
        ChangeSetModel { changes: Seq::empty(), expected: Map::empty() }
    }

    /// One more change.
    pub open spec fn with(self, change: ManifestChangeModel) -> Self {
        ChangeSetModel { changes: self.changes.push(change), ..self }
    }

    /// An expectation of one table, in place of the one that it may have.
    pub open spec fn expecting(self, identity: TableIdentity, alias: Seq<char>, version: u64) -> Self {
        ChangeSetModel {
            expected: self.expected.insert(
                identity,
                TableVersionExpectationModel { table_key: alias, table_version: version },
            ),
            ..self
        }
    }

    /// An expectation of one table, unless it has one.
    pub open spec fn expecting_unless(
        self,
        identity: TableIdentity,
        alias: Seq<char>,
        version: u64,
    ) -> Self {
        if self.expected.contains_key(identity) {
            self
        } else {
            self.expecting(identity, alias, version)
        }
    }
}

impl ChangeSet {
    /// No changes.
    pub fn new() -> (set: Self)
        ensures
            set@ == ChangeSetModel::none(),
    {
        let set = ChangeSet { changes: Vec::new(), expected: IdentityMap::new() };
        assert(set@ =~= ChangeSetModel::none());
        set
    }

    /// Adds a change.
    pub fn push(&mut self, change: ManifestChange)
        ensures
            final(self)@ == old(self)@.with(change@),
    {
        let ghost before = self.changes@;
        self.changes.push(change);
        assert(views(self.changes@) =~= views(before).push(change@));
    }

    /// Expects an alias and a version of a table.
    pub fn expect(&mut self, identity: TableIdentity, alias: &String, version: u64)
        ensures
            final(self)@ == old(self)@.expecting(identity, alias@, version),
    {
        self.expected.set(
            identity,
            TableVersionExpectation { table_key: alias.clone(), table_version: version },
        );
    }

    /// Expects an alias and a version of a table, unless something is expected of
    /// it already.
    pub fn expect_unless(&mut self, identity: TableIdentity, alias: &String, version: u64)
        ensures
            final(self)@ == old(self)@.expecting_unless(identity, alias@, version),
    {
        if self.expected.get(identity).is_none() {
            self.expect(identity, alias, version);
        }
    }
}

/// A table version as the store holds it, ready to be published.
#[derive(Debug, PartialEq, Eq)]
pub struct PublishedTable {
    pub table_version: u64,
    pub row_count: u64,
    pub version_metadata: TableVersionMetadata,
}

/// What a [`PublishedTable`] stands for.
pub struct PublishedTableModel {
    pub table_version: u64,
    pub row_count: u64,
    pub version_metadata: TableVersionMetadataModel,
}

impl View for PublishedTable {
    type V = PublishedTableModel;

    open spec fn view(&self) -> PublishedTableModel {
        PublishedTableModel {
            table_version: self.table_version,
            row_count: self.row_count,
            version_metadata: self.version_metadata@,
        }
    }
}

impl Replicate for PublishedTable {
    fn replicate(&self) -> (copy: Self) {
        PublishedTable {
            table_version: self.table_version,
            row_count: self.row_count,
            version_metadata: self.version_metadata.replicate(),
        }
    }
}

/// A change set with the publish of one table version.
pub open spec fn with_table_update(
    set: ChangeSetModel,
    identity: TableIdentity,
    alias: Seq<char>,
    branch: Option<Seq<char>>,
    expected_version: u64,
    table: PublishedTableModel,
) -> ChangeSetModel {
    set.with(
        ManifestChangeModel::Update(
            SubTableUpdateModel {
                identity,
                table_key: alias,
                table_version: table.table_version,
                table_branch: branch,
                row_count: table.row_count,
                version_metadata: table.version_metadata,
            },
        ),
    ).expecting(identity, alias, expected_version)
}

/// Adds the publish of one table version to a change set, on the condition that
/// the manifest still selects `expected_version`.
pub fn push_table_update(
    set: &mut ChangeSet,
    identity: TableIdentity,
    alias: &String,
    branch: &Option<String>,
    expected_version: u64,
    table: &PublishedTable,
) -> (result: Result<u64, OmniError>)
    ensures
        match path_of(alias@, identity) {
            Some(_) => {
                &&& result == Ok::<u64, OmniError>(table.table_version)
                &&& final(set)@ == with_table_update(
                    old(set)@,
                    identity,
                    alias@,
                    opt_view(*branch),
                    expected_version,
                    table@,
                )
            },
            None => {
                &&& result is Err
                &&& result->Err_0@ == bad_alias(alias@)
                &&& final(set)@ == old(set)@
            },
        },
{
    if let Err(error) = table_path_for_identity(alias.as_str(), identity) {
        return Err(error);
    }
    set.push(
        ManifestChange::Update(
            SubTableUpdate {
                identity,
                table_key: alias.clone(),
                table_version: table.table_version,
                table_branch: replicate_opt(branch),
                row_count: table.row_count,
                version_metadata: table.version_metadata.replicate(),
            },
        ),
    );
    set.expect(identity, alias, expected_version);
    Ok(table.table_version)
}

/// How a recovery ended.
#[derive(Clone, Copy, Debug, PartialEq, Eq, Structural)]
pub enum RecoveryKind {
    RolledForward,
    RolledBack,
    OrphanedBranchDiscarded,
}

/// The lineage that a publish records.
#[derive(Debug, PartialEq, Eq)]
pub struct LineageIntent {
    pub graph_commit_id: String,
    pub branch: Option<String>,
    pub actor_id: Option<String>,
    pub merged_parent_commit_id: Option<String>,
    pub created_at: i64,
}

/// What a [`LineageIntent`] stands for.
pub struct LineageIntentModel {
    pub graph_commit_id: Seq<char>,
    pub branch: Option<Seq<char>>,
    pub actor_id: Option<Seq<char>>,
    pub merged_parent_commit_id: Option<Seq<char>>,
    pub created_at: i64,
}

impl View for LineageIntent {
    type V = LineageIntentModel;

    open spec fn view(&self) -> LineageIntentModel {
        LineageIntentModel {
            graph_commit_id: self.graph_commit_id@,
            branch: opt_view(self.branch),
            actor_id: opt_view(self.actor_id),
            merged_parent_commit_id: opt_view(self.merged_parent_commit_id),
            created_at: self.created_at,
        }
    }
}

/// The lineage of the original attempt.
pub open spec fn original_lineage(lineage: RecoveryLineageIntentModel) -> LineageIntentModel {
    LineageIntentModel {
        graph_commit_id: lineage.graph_commit_id,
        branch: lineage.branch,
        actor_id: lineage.actor_id,
        merged_parent_commit_id: lineage.merged_parent_commit_id,
        created_at: lineage.created_at,
    }
}

impl LineageIntent {
    /// The lineage of the original attempt.
    pub fn from_recovery(lineage: &RecoveryLineageIntent) -> (intent: Self)
        ensures
            intent@ == original_lineage(lineage@),
    {
        LineageIntent {
            graph_commit_id: lineage.graph_commit_id.clone(),
            branch: replicate_opt(&lineage.branch),
            actor_id: replicate_opt(&lineage.actor_id),
            merged_parent_commit_id: replicate_opt(&lineage.merged_parent_commit_id),
            created_at: lineage.created_at,
        }
    }
}

/// The lineage that an exact payload fixes.
pub open spec fn fixed_lineage(sidecar: RecoverySidecarModel) -> Option<
    RecoveryLineageIntentModel,
> {
    match (sidecar.protocol_v3, sidecar.protocol_v4, sidecar.protocol_v7, sidecar.protocol_v8) {
        (Some(payload), _, _, _) => Some(payload.lineage),
        (None, Some(payload), _, _) => Some(payload.lineage),
        (None, None, Some(payload), _) => Some(payload.lineage),
        (None, None, None, Some(payload)) => Some(payload.lineage),
        (None, None, None, None) => None,
    }
}

/// The authority that an exact payload captured.
pub open spec fn fixed_authority(sidecar: RecoverySidecarModel) -> Option<
    RecoveryAuthorityTokenModel,
> {
    match (sidecar.protocol_v3, sidecar.protocol_v4, sidecar.protocol_v7, sidecar.protocol_v8) {
        (Some(payload), _, _, _) => Some(payload.authority),
        (None, Some(payload), _, _) => Some(payload.authority),
        (None, None, Some(payload), _) => Some(payload.authority),
        (None, None, None, Some(payload)) => Some(payload.authority),
        (None, None, None, None) => None,
    }
}

/// The commit id that a payload fixes for its rollback. The loose ensure-indices
/// payload fixes one for a rollback alone.
pub open spec fn fixed_rollback_id(sidecar: RecoverySidecarModel, kind: RecoveryKind) -> Option<
    Seq<char>,
> {
    match (sidecar.protocol_v3, sidecar.protocol_v4, sidecar.protocol_v7, sidecar.protocol_v8) {
        (Some(payload), _, _, _) => Some(payload.rollback_graph_commit_id),
        (None, Some(payload), _, _) => Some(payload.rollback_graph_commit_id),
        (None, None, Some(payload), _) => Some(payload.rollback_graph_commit_id),
        (None, None, None, Some(payload)) => Some(payload.rollback_graph_commit_id),
        (None, None, None, None) => match sidecar.ensure_indices_rollback_v6 {
            Some(payload) if kind == RecoveryKind::RolledBack => Some(
                payload.rollback_graph_commit_id,
            ),
            _ => None,
        },
    }
}

/// The lineage that an exact payload fixes.
pub fn fixed_lineage_of(sidecar: &RecoverySidecar) -> (lineage: Option<&RecoveryLineageIntent>)
    ensures
        opt_view(lineage) == fixed_lineage(sidecar@),
{
    if let Some(payload) = &sidecar.protocol_v3 {
        return Some(&payload.lineage);
    }
    if let Some(payload) = &sidecar.protocol_v4 {
        return Some(&payload.lineage);
    }
    if let Some(payload) = &sidecar.protocol_v7 {
        return Some(&payload.lineage);
    }
    if let Some(payload) = &sidecar.protocol_v8 {
        return Some(&payload.lineage);
    }
    None
}

/// The authority that an exact payload captured.
pub fn fixed_authority_of(sidecar: &RecoverySidecar) -> (authority: Option<&RecoveryAuthorityToken>)
    ensures
        opt_view(authority) == fixed_authority(sidecar@),
{
    if let Some(payload) = &sidecar.protocol_v3 {
        return Some(&payload.authority);
    }
    if let Some(payload) = &sidecar.protocol_v4 {
        return Some(&payload.authority);
    }
    if let Some(payload) = &sidecar.protocol_v7 {
        return Some(&payload.authority);
    }
    if let Some(payload) = &sidecar.protocol_v8 {
        return Some(&payload.authority);
    }
    None
}

/// The commit id that a payload fixes for its rollback.
pub fn fixed_rollback_id_of(sidecar: &RecoverySidecar, kind: RecoveryKind) -> (id: Option<&String>)
    ensures
        opt_view(id) == fixed_rollback_id(sidecar@, kind),
{
    if let Some(payload) = &sidecar.protocol_v3 {
        return Some(&payload.rollback_graph_commit_id);
    }
    if let Some(payload) = &sidecar.protocol_v4 {
        return Some(&payload.rollback_graph_commit_id);
    }
    if let Some(payload) = &sidecar.protocol_v7 {
        return Some(&payload.rollback_graph_commit_id);
    }
    if let Some(payload) = &sidecar.protocol_v8 {
        return Some(&payload.rollback_graph_commit_id);
    }
    match &sidecar.ensure_indices_rollback_v6 {
        Some(payload) => {
            if kind == RecoveryKind::RolledBack {
                Some(&payload.rollback_graph_commit_id)
            } else {
                None
            }
        },
        None => None,
    }
}

/// The time stamp of a rollback: the start of the attempt, where it can be read.
pub open spec fn rollback_stamp(started_at: Seq<char>, now: i64) -> i64 {
    match integer_of(started_at) {
        Some(value) => if i64::MIN <= value <= i64::MAX {
            value as i64
        } else {
            now
        },
        None => now,
    }
}

/// The lineage that a recovery is published under. A roll-forward of an exact
/// attempt keeps the attempt's own lineage, a rollback uses the commit id that
/// the attempt fixed for it, and any other recovery gets a fresh commit of the
/// recovery actor.
pub open spec fn recovery_lineage(
    sidecar: RecoverySidecarModel,
    kind: RecoveryKind,
    fresh_id: Seq<char>,
    now: Result<i64, OmniErrorModel>,
) -> Result<LineageIntentModel, OmniErrorModel> {
    let exact = fixed_lineage(sidecar);
    let rollback = fixed_rollback_id(sidecar, kind);
    match kind {
        RecoveryKind::RolledForward if exact is Some => Ok(original_lineage(exact->0)),
        RecoveryKind::RolledBack if rollback is Some => match now {
            Err(error) => Err(error),
            Ok(stamp) => Ok(
                LineageIntentModel {
                    graph_commit_id: rollback->0,
                    branch: sidecar.branch,
                    actor_id: Some(RECOVERY_ACTOR@),
                    merged_parent_commit_id: None,
                    created_at: rollback_stamp(sidecar.started_at, stamp),
                },
            ),
        },
        _ => if exact is Some || rollback is Some {
            Err(
                internal(
                    "orphaned-branch discard cannot publish through an exact recovery protocol"@,
                ),
            )
        } else {
            match now {
                Err(error) => Err(error),
                Ok(stamp) => Ok(
                    LineageIntentModel {
                        graph_commit_id: fresh_id,
                        branch: sidecar.branch,
                        actor_id: Some(RECOVERY_ACTOR@),
                        merged_parent_commit_id: if sidecar.writer_kind == SidecarKind::BranchMerge
                            && kind == RecoveryKind::RolledForward {
                            sidecar.merge_source_commit_id
                        } else {
                            None
                        },
                        created_at: stamp,
                    },
                ),
            }
        },
    }
}

/// What a reading of the clock stands for.
pub open spec fn stamp_view(now: Result<i64, OmniError>) -> Result<i64, OmniErrorModel> {
    match now {
        Ok(stamp) => Ok(stamp),
        Err(error) => Err(error@),
    }
}

/// How the choice of a lineage ends.
pub open spec fn lineage_result(
    result: Result<LineageIntent, OmniError>,
    expected: Result<LineageIntentModel, OmniErrorModel>,
) -> bool {
    match expected {
        Ok(intent) => result is Ok && result->Ok_0@ == intent,
        Err(error) => result is Err && result->Err_0@ == error,
    }
}

/// Chooses the lineage that a recovery is published under, given a fresh commit id
/// and a reading of the clock.
pub fn recovery_lineage_intent(
    sidecar: &RecoverySidecar,
    kind: RecoveryKind,
    fresh_id: String,
    now: Result<i64, OmniError>,
) -> (result: Result<LineageIntent, OmniError>)
    ensures
        lineage_result(
            result,
            recovery_lineage(sidecar@, kind, fresh_id@, stamp_view(now)),
        ),
{
    let exact: Option<&RecoveryLineageIntent> = fixed_lineage_of(sidecar);
    let rollback: Option<&String> = fixed_rollback_id_of(sidecar, kind);
    match (exact, rollback, kind) {
        (Some(lineage), _, RecoveryKind::RolledForward) => Ok(
            LineageIntent::from_recovery(lineage),
        ),
        (_, Some(id), RecoveryKind::RolledBack) => {
            let stamp: i64 = match now {
                Ok(stamp) => stamp,
                Err(error) => {
                    return Err(error);
                },
            };
            let created_at: i64 = match parse_i64(sidecar.started_at.as_str()) {
                Ok(started) => started,
                Err(_) => stamp,
            };
            Ok(
                LineageIntent {
                    graph_commit_id: id.clone(),
                    branch: replicate_opt(&sidecar.branch),
                    actor_id: Some(RECOVERY_ACTOR.to_owned()),
                    merged_parent_commit_id: None,
                    created_at,
                },
            )
        },
        (None, None, _) => {
            let stamp: i64 = match now {
                Ok(stamp) => stamp,
                Err(error) => {
                    return Err(error);
                },
            };
            let merged_parent_commit_id: Option<String> = if sidecar.writer_kind
                == SidecarKind::BranchMerge && kind == RecoveryKind::RolledForward {
                replicate_opt(&sidecar.merge_source_commit_id)
            } else {
                None
            };
            Ok(
                LineageIntent {
                    graph_commit_id: fresh_id,
                    branch: replicate_opt(&sidecar.branch),
                    actor_id: Some(RECOVERY_ACTOR.to_owned()),
                    merged_parent_commit_id,
                    created_at: stamp,
                },
            )
        },
        _ => Err(
            OmniError::manifest_internal(
                "orphaned-branch discard cannot publish through an exact recovery protocol",
            ),
        ),
    }
}

/// Chooses the lineage that a recovery is published under now.
pub fn new_recovery_lineage_intent(sidecar: &RecoverySidecar, kind: RecoveryKind) -> (result: Result<
    LineageIntent,
    OmniError,
>)
    ensures
        exists|fresh_id: Seq<char>, now: Result<i64, OmniErrorModel>|
            {
                &&& fresh_id.len() == 26
                &&& now matches Err(error) ==> exists|reason: Seq<char>|
                    error == #[trigger] clock_fault(reason)
                &&& lineage_result(
                    result,
                    #[trigger] recovery_lineage(sidecar@, kind, fresh_id, now),
                )
            },
{
    let fresh_id: String = fresh_ulid();
    let now: Result<i64, OmniError> = now_micros();
    let ghost (id, stamp) = (fresh_id@, stamp_view(now));
    let result: Result<LineageIntent, OmniError> = recovery_lineage_intent(
        sidecar,
        kind,
        fresh_id,
        now,
    );
    assert(lineage_result(result, recovery_lineage(sidecar@, kind, id, stamp)));
    result
}

/// The lineage of the discard of a sidecar whose branch is gone: it is recorded
/// on main.
pub fn orphan_discard_intent(fresh_id: String, created_at: i64) -> (intent: LineageIntent)
    ensures
        intent@ == (LineageIntentModel {
            graph_commit_id: fresh_id@,
            branch: None,
            actor_id: Some(RECOVERY_ACTOR@),
            merged_parent_commit_id: None,
            created_at,
        }),
{
    LineageIntent {
        graph_commit_id: fresh_id,
        branch: None,
        actor_id: Some(RECOVERY_ACTOR.to_owned()),
        merged_parent_commit_id: None,
        created_at,
    }
}

/// The lineage of a discard that happens now.
pub fn new_orphan_discard_intent() -> (result: Result<LineageIntent, OmniError>)
    ensures
        match result {
            Ok(intent) => {
                &&& intent.graph_commit_id@.len() == 26
                &&& intent@ == (LineageIntentModel {
                    graph_commit_id: intent.graph_commit_id@,
                    branch: None,
                    actor_id: Some(RECOVERY_ACTOR@),
                    merged_parent_commit_id: None,
                    created_at: intent.created_at,
                })
            },
            Err(error) => exists|reason: Seq<char>| error@ == #[trigger] clock_fault(reason),
        },
{
    let fresh_id: String = fresh_ulid();
    match now_micros() {
        Ok(created_at) => Ok(orphan_discard_intent(fresh_id, created_at)),
        Err(error) => Err(error),
    }
}

/// The condition that a recovery is published on.
#[derive(Debug, PartialEq, Eq)]
pub enum PublishPrecondition {
    /// None beyond the expectations of the tables.
    Any,
    /// The branch has to be the captured one, at the captured head.
    ExactGraphHead {
        branch: Option<String>,
        branch_identifier: BranchIdentifier,
        graph_head: Option<String>,
    },
}

/// What a [`PublishPrecondition`] stands for.
pub enum PublishPreconditionModel {
    Any,
    ExactGraphHead {
        branch: Option<Seq<char>>,
        branch_identifier: BranchIdentifierModel,
        graph_head: Option<Seq<char>>,
    },
}

impl View for PublishPrecondition {
    type V = PublishPreconditionModel;

    open spec fn view(&self) -> PublishPreconditionModel {
        match *self {
            PublishPrecondition::Any => PublishPreconditionModel::Any,
            PublishPrecondition::ExactGraphHead { branch, branch_identifier, graph_head } =>
                PublishPreconditionModel::ExactGraphHead {
                branch: opt_view(branch),
                branch_identifier: branch_identifier@,
                graph_head: opt_view(graph_head),
            },
        }
    }
}

/// The condition that a recovery is published on: a roll-forward of an exact
/// attempt must not be given another parent after its authority changed.
pub open spec fn precondition_of(
    sidecar: RecoverySidecarModel,
    kind: RecoveryKind,
) -> PublishPreconditionModel {
    match fixed_authority(sidecar) {
        Some(authority) if kind == RecoveryKind::RolledForward =>
            PublishPreconditionModel::ExactGraphHead {
            branch: sidecar.branch,
            branch_identifier: authority.branch_identifier,
            graph_head: authority.graph_head,
        },
        _ => PublishPreconditionModel::Any,
    }
}

/// The condition that a recovery is published on.
pub fn recovery_precondition(sidecar: &RecoverySidecar, kind: RecoveryKind) -> (precondition:
    PublishPrecondition)
    ensures
        precondition@ == precondition_of(sidecar@, kind),
{
    match fixed_authority_of(sidecar) {
        Some(authority) => {
            if kind == RecoveryKind::RolledForward {
                PublishPrecondition::ExactGraphHead {
                    branch: replicate_opt(&sidecar.branch),
                    branch_identifier: authority.branch_identifier.replicate(),
                    graph_head: replicate_opt(&authority.graph_head),
                }
            } else {
                PublishPrecondition::Any
            }
        },
        None => PublishPrecondition::Any,
    }
}

/// The audit row of one recovery.
#[derive(Debug, PartialEq, Eq)]
pub struct RecoveryAuditRecord {
    pub graph_commit_id: String,
    pub recovery_kind: RecoveryKind,
    /// Actor of the recovered attempt.
    pub recovery_for_actor: Option<String>,
    pub operation_id: String,
    pub sidecar_writer_kind: String,
    pub per_table_outcomes: Vec<TableOutcome>,
    pub created_at: i64,
}

/// What a [`RecoveryAuditRecord`] stands for.
pub struct RecoveryAuditRecordModel {
    pub graph_commit_id: Seq<char>,
    pub recovery_kind: RecoveryKind,
    pub recovery_for_actor: Option<Seq<char>>,
    pub operation_id: Seq<char>,
    pub sidecar_writer_kind: Seq<char>,
    pub per_table_outcomes: Seq<TableOutcomeModel>,
    pub created_at: i64,
}

impl View for RecoveryAuditRecord {
    type V = RecoveryAuditRecordModel;

    open spec fn view(&self) -> RecoveryAuditRecordModel {
        RecoveryAuditRecordModel {
            graph_commit_id: self.graph_commit_id@,
            recovery_kind: self.recovery_kind,
            recovery_for_actor: opt_view(self.recovery_for_actor),
            operation_id: self.operation_id@,
            sidecar_writer_kind: self.sidecar_writer_kind@,
            per_table_outcomes: views(self.per_table_outcomes@),
            created_at: self.created_at,
        }
    }
}

/// The audit row of a recovery.
pub open spec fn audit_of(
    sidecar: RecoverySidecarModel,
    graph_commit_id: Seq<char>,
    kind: RecoveryKind,
    outcomes: Seq<TableOutcomeModel>,
    created_at: i64,
) -> RecoveryAuditRecordModel {
    RecoveryAuditRecordModel {
        graph_commit_id,
        recovery_kind: kind,
        recovery_for_actor: sidecar.actor_id,
        operation_id: sidecar.operation_id,
        sidecar_writer_kind: kind_text(sidecar.writer_kind),
        per_table_outcomes: outcomes,
        created_at,
    }
}

/// The audit row of a recovery.
pub fn audit_record(
    sidecar: &RecoverySidecar,
    graph_commit_id: String,
    kind: RecoveryKind,
    outcomes: Vec<TableOutcome>,
    created_at: i64,
) -> (record: RecoveryAuditRecord)
    ensures
        record@ == audit_of(sidecar@, graph_commit_id@, kind, views(outcomes@), created_at),
{
    RecoveryAuditRecord {
        graph_commit_id,
        recovery_kind: kind,
        recovery_for_actor: replicate_opt(&sidecar.actor_id),
        operation_id: sidecar.operation_id.clone(),
        sidecar_writer_kind: sidecar.writer_kind.name().to_owned(),
        per_table_outcomes: outcomes,
        created_at,
    }
}

/// The audit row of a recovery that ends now.
pub fn record_audit(
    sidecar: &RecoverySidecar,
    graph_commit_id: String,
    kind: RecoveryKind,
    outcomes: Vec<TableOutcome>,
) -> (result: Result<RecoveryAuditRecord, OmniError>)
    ensures
        match result {
            Ok(record) => record@ == audit_of(
                sidecar@,
                graph_commit_id@,
                kind,
                views(outcomes@),
                record.created_at,
            ),
            Err(error) => exists|reason: Seq<char>| error@ == #[trigger] clock_fault(reason),
        },
{
    match now_micros() {
        Ok(created_at) => Ok(audit_record(sidecar, graph_commit_id, kind, outcomes, created_at)),
        Err(error) => Err(error),
    }
}

/// Whether an audit row describes the same end of the same attempt.
pub open spec fn records(
    record: RecoveryAuditRecordModel,
    operation_id: Seq<char>,
    kind: RecoveryKind,
) -> bool {
    record.operation_id == operation_id && record.recovery_kind == kind
}

/// Whether the end of an attempt has its audit row already. A retry then only
/// has to delete the sidecar.
pub fn already_recorded(
    rows: &Vec<RecoveryAuditRecord>,
    operation_id: &String,
    kind: RecoveryKind,
) -> (answer: bool)
    ensures
        answer == exists|i: int|
            0 <= i < rows@.len() && records((#[trigger] rows@[i])@, operation_id@, kind),
{
    let mut i: usize = 0;
    while i < rows.len()
        invariant
            i <= rows.len(),
            forall|j: int|
                0 <= j < i ==> !records((#[trigger] rows@[j])@, operation_id@, kind),
        decreases rows.len() - i,
    {
        if rows[i].operation_id == *operation_id && rows[i].recovery_kind == kind {
            assert(records(rows@[i as int]@, operation_id@, kind));
            return true;
        }
        i += 1;
    }
    false
}

} // verus!
