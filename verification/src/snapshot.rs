//! The manifest's view of one graph branch: which tables are live, under which
//! alias, at which version.

use vstd::prelude::*;

use crate::error::{read_set_changed, OmniError, OmniErrorModel};
use crate::identity::TableIdentity;
use crate::lookup::{find_by_alias, find_by_identity, place_of, place_of_alias, Aliased, Identified};
use crate::shape::schema_apply::{restored_alias, schema_apply_rollback_table_key};
use crate::sidecar::{
    RecoveryProtocolV7, SidecarTablePin, TableVersionMetadata, TableVersionMetadataModel,
};
use crate::text::cat2;
use crate::value::{opt_view, replicate_opt, views, Replicate};

verus! {

/// One table version that the manifest selects.
#[derive(Debug, PartialEq, Eq)]
pub struct SubTableEntry {
    pub table_key: String,
    /// Location relative to the graph root.
    pub table_path: String,
    pub table_version: u64,
    pub table_branch: Option<String>,
    pub row_count: u64,
    pub version_metadata: TableVersionMetadata,
}

/// What a [`SubTableEntry`] stands for.
pub struct SubTableEntryModel {
    pub table_key: Seq<char>,
    pub table_path: Seq<char>,
    pub table_version: u64,
    pub table_branch: Option<Seq<char>>,
    pub row_count: u64,
    pub version_metadata: TableVersionMetadataModel,
}

impl View for SubTableEntry {
    type V = SubTableEntryModel;

    open spec fn view(&self) -> SubTableEntryModel {
        SubTableEntryModel {
            table_key: self.table_key@,
            table_path: self.table_path@,
            table_version: self.table_version,
            table_branch: opt_view(self.table_branch),
            row_count: self.row_count,
            version_metadata: self.version_metadata@,
        }
    }
}

impl Replicate for SubTableEntry {
    fn replicate(&self) -> (copy: Self) {
        SubTableEntry {
            table_key: self.table_key.clone(),
            table_path: self.table_path.clone(),
            table_version: self.table_version,
            table_branch: replicate_opt(&self.table_branch),
            row_count: self.row_count,
            version_metadata: self.version_metadata.replicate(),
        }
    }
}

/// A live table of a snapshot, with the lifetime it belongs to.
#[derive(Debug, PartialEq, Eq)]
pub struct SnapshotEntry {
    pub identity: TableIdentity,
    pub table: SubTableEntry,
}

/// What a [`SnapshotEntry`] stands for.
pub struct SnapshotEntryModel {
    pub identity: TableIdentity,
    pub table: SubTableEntryModel,
}

impl View for SnapshotEntry {
    type V = SnapshotEntryModel;

    open spec fn view(&self) -> SnapshotEntryModel {
        SnapshotEntryModel {
            identity: self.identity,
            table: self.table@,
        }
    }
}

impl Replicate for SnapshotEntry {
    fn replicate(&self) -> (copy: Self) {
        SnapshotEntry {
            identity: self.identity,
            table: self.table.replicate(),
        }
    }
}

/// The live tables of one graph branch.
#[derive(Debug, PartialEq, Eq)]
pub struct Snapshot {
    pub entries: Vec<SnapshotEntry>,
}

/// What a [`Snapshot`] stands for.
pub struct SnapshotModel {
    pub entries: Seq<SnapshotEntryModel>,
}

impl View for Snapshot {
    type V = SnapshotModel;

    open spec fn view(&self) -> SnapshotModel {
        SnapshotModel {
            entries: views(self.entries@),
        }
    }
}

impl Identified for SnapshotEntry {
    open spec fn identity_of(model: SnapshotEntryModel) -> TableIdentity {
        model.identity
    }

    fn identity(&self) -> (identity: TableIdentity) {
        self.identity
    }
}

impl Aliased for SnapshotEntry {
    open spec fn alias_of(model: SnapshotEntryModel) -> Seq<char> {
        model.table.table_key
    }

    fn alias(&self) -> (alias: &String) {
        &self.table.table_key
    }
}

impl SnapshotModel {
    /// The live table of a lifetime, if there is one.
    pub open spec fn by_identity(self, identity: TableIdentity) -> Option<SnapshotEntryModel> {
        find_by_identity::<SnapshotEntry>(self.entries, identity)
    }

    /// The live table with an alias, if there is one.
    pub open spec fn by_alias(self, alias: Seq<char>) -> Option<SnapshotEntryModel> {
        find_by_alias::<SnapshotEntry>(self.entries, alias)
    }
}

impl Snapshot {
    /// The live table with an alias, if there is one.
    pub fn entry(&self, table_key: &String) -> (entry: Option<&SnapshotEntry>)
        ensures
            opt_view(entry) == self@.by_alias(table_key@),
    {
        match place_of_alias(&self.entries, table_key) {
            Some(i) => Some(&self.entries[i]),
            None => None,
        }
    }
}

/// The live table of a lifetime, if there is one.
pub fn snapshot_entry_by_identity(snapshot: &Snapshot, identity: TableIdentity) -> (entry: Option<
    &SnapshotEntry,
>)
    ensures
        opt_view(entry) == snapshot@.by_identity(identity),
{
    match place_of(&snapshot.entries, identity) {
        Some(i) => Some(&snapshot.entries[i]),
        None => None,
    }
}

/// The live table of a lifetime, which has to be bound to `alias`. A lifetime
/// under another alias, or another lifetime under this alias, is a changed read
/// set and never a substitute.
pub open spec fn bound_entry(
    snapshot: SnapshotModel,
    identity: TableIdentity,
    alias: Seq<char>,
) -> Result<Option<SnapshotEntryModel>, OmniErrorModel> {
    match snapshot.by_identity(identity) {
        Some(entry) => if entry.table.table_key != alias {
            Err(
                read_set_changed(
                    "table_binding:"@ + identity.text(),
                    Some(alias),
                    Some(entry.table.table_key),
                ),
            )
        } else {
            Ok(Some(entry))
        },
        None => match snapshot.by_alias(alias) {
            Some(entry) => Err(
                read_set_changed(
                    "table_identity:"@ + alias,
                    Some(identity.text()),
                    Some(entry.identity.text()),
                ),
            ),
            None => Ok(None),
        },
    }
}

/// How the lookup of a bound table ends.
pub open spec fn entry_result(
    result: Result<Option<&SnapshotEntry>, OmniError>,
    expected: Result<Option<SnapshotEntryModel>, OmniErrorModel>,
) -> bool {
    match expected {
        Ok(entry) => result is Ok && opt_view(result->Ok_0) == entry,
        Err(error) => result is Err && result->Err_0@ == error,
    }
}

/// The live table of a lifetime, which has to be bound to `alias`.
fn find_bound_entry<'a>(
    snapshot: &'a Snapshot,
    identity: TableIdentity,
    alias: &String,
) -> (result: Result<Option<&'a SnapshotEntry>, OmniError>)
    ensures
        entry_result(result, bound_entry(snapshot@, identity, alias@)),
{
    if let Some(entry) = snapshot_entry_by_identity(snapshot, identity) {
        if entry.table.table_key != *alias {
            let text: String = identity.to_text();
            let member: String = cat2("table_binding:", text.as_str());
            return Err(
                OmniError::manifest_read_set_changed(
                    member.as_str(),
                    Some(alias.clone()),
                    Some(entry.table.table_key.clone()),
                ),
            );
        }
        return Ok(Some(entry));
    }
    if let Some(entry) = snapshot.entry(alias) {
        let member: String = cat2("table_identity:", alias.as_str());
        return Err(
            OmniError::manifest_read_set_changed(
                member.as_str(),
                Some(identity.to_text()),
                Some(entry.identity.to_text()),
            ),
        );
    }
    Ok(None)
}

/// The live table that a pin belongs to.
pub fn snapshot_entry_for_pin<'a>(snapshot: &'a Snapshot, pin: &SidecarTablePin) -> (result: Result<
    Option<&'a SnapshotEntry>,
    OmniError,
>)
    ensures
        entry_result(result, bound_entry(snapshot@, pin.identity, pin.table_key@)),
{
    find_bound_entry(snapshot, pin.identity, &pin.table_key)
}

/// The live table that a pin of a schema apply belongs to: before the apply is
/// published, a renamed table still has its old alias.
pub fn snapshot_entry_for_schema_pin<'a>(
    snapshot: &'a Snapshot,
    pin: &SidecarTablePin,
    protocol: &RecoveryProtocolV7,
) -> (result: Result<Option<&'a SnapshotEntry>, OmniError>)
    ensures
        entry_result(
            result,
            bound_entry(
                snapshot@,
                pin.identity,
                restored_alias(protocol@.intended_delta.renames, pin@),
            ),
        ),
{
    find_bound_entry(snapshot, pin.identity, schema_apply_rollback_table_key(protocol, pin))
}

} // verus!
