//! The state of the manifest: what its rows say about every table.

use vstd::prelude::*;

use crate::batch::{null_cell, required_u64, ManifestBatch};
use crate::error::{internal, OmniError, OmniErrorModel};
use crate::lineage::{
    decode_graph_commit_row, decoded_commit, last_value, part_row, value_of, GraphCommitMetadata,
    GraphLineageRow, GraphLineageRowModel, GraphLineageRowPart, GraphLineageRowPartModel,
    OBJECT_TYPE_GRAPH_COMMIT, OBJECT_TYPE_TABLE, OBJECT_TYPE_TABLE_TOMBSTONE,
    OBJECT_TYPE_TABLE_VERSION,
};
use crate::order::{
    lemma_text_total, lemma_text_transitive, ranked, sort, text_at_most, text_le, Ranked,
};
use crate::rows::{holds_rows, rows_fit, rows_to_batch, ManifestRow, ManifestRowModel};
use crate::shape::defect::{first_defect, lemma_first_defect, lemma_no_defect};
use crate::sidecar::TableVersionMetadata;
use crate::snapshot::{SubTableEntry, SubTableEntryModel};
use crate::text::{cat2, same_text};
use crate::value::{replicate_opt, views, Replicate};

verus! {

/// What the manifest selects at one of its versions.
#[derive(Debug, PartialEq, Eq)]
pub struct ManifestState {
    pub version: u64,
    /// The live tables, by alias.
    pub entries: Vec<SubTableEntry>,
}

impl Ranked for SubTableEntry {
    open spec fn rank_le(a: SubTableEntryModel, b: SubTableEntryModel) -> bool {
        if a.table_key == b.table_key {
            a.table_version <= b.table_version
        } else {
            text_le(a.table_key, b.table_key)
        }
    }

    fn at_most(&self, other: &Self) -> (answer: bool) {
        if self.table_key == other.table_key {
            return self.table_version <= other.table_version;
        }
        text_at_most(self.table_key.as_str(), other.table_key.as_str())
    }

    proof fn rank_total(a: SubTableEntryModel, b: SubTableEntryModel) {
        lemma_text_total(a.table_key, b.table_key);
    }

    proof fn rank_transitive(a: SubTableEntryModel, b: SubTableEntryModel, c: SubTableEntryModel) {
        lemma_text_transitive(a.table_key, b.table_key, c.table_key);
        lemma_text_total(a.table_key, b.table_key);
        lemma_text_total(b.table_key, c.table_key);
        lemma_text_total(a.table_key, c.table_key);
    }
}

/// Whether entry `i` is the one that counts for its table: the latest version, and
/// the first where that occurs more than once.
pub open spec fn is_latest(entries: Seq<SubTableEntryModel>, i: int) -> bool {
    forall|j: int|
        0 <= j < entries.len() && j != i && (#[trigger] entries[j]).table_key
            == entries[i].table_key ==> if j < i {
            entries[j].table_version < entries[i].table_version
        } else {
            entries[j].table_version <= entries[i].table_version
        }
}

/// Whether a removal covers a version of a table.
pub open spec fn sealed(tombstones: Seq<(Seq<char>, u64)>, alias: Seq<char>, version: u64) -> bool {
    exists|k: int|
        0 <= k < tombstones.len() && (#[trigger] tombstones[k]).0 == alias && tombstones[k].1
            >= version
}

/// Whether entry `i` is live.
pub open spec fn is_live(
    entries: Seq<SubTableEntryModel>,
    tombstones: Seq<(Seq<char>, u64)>,
    i: int,
) -> bool {
    is_latest(entries, i) && !sealed(tombstones, entries[i].table_key, entries[i].table_version)
}

/// The live entries among the first `n`.
pub open spec fn live_entries(
    entries: Seq<SubTableEntryModel>,
    tombstones: Seq<(Seq<char>, u64)>,
    n: int,
) -> Seq<SubTableEntryModel>
    decreases n,
{
    if n <= 0 {
        Seq::empty()
    } else if is_live(entries, tombstones, n - 1) {
        live_entries(entries, tombstones, n - 1).push(entries[n - 1])
    } else {
        live_entries(entries, tombstones, n - 1)
    }
}

/// The live tables that version entries and removals leave, by alias.
pub open spec fn assembled(
    entries: Seq<SubTableEntryModel>,
    tombstones: Seq<(Seq<char>, u64)>,
) -> Seq<SubTableEntryModel> {
    ranked::<SubTableEntry>(live_entries(entries, tombstones, entries.len() as int))
}

/// Whether entry `i` is the one that counts for its table.
fn is_latest_entry(entries: &Vec<SubTableEntry>, i: usize) -> (answer: bool)
    requires
        i < entries.len(),
    ensures
        answer == is_latest(views(entries@), i as int),
{
    let ghost models = views(entries@);
    assert(models[i as int] == entries@[i as int]@);
    let mut j: usize = 0;
    while j < entries.len()
        invariant
            j <= entries.len(),
            i < entries.len(),
            models == views(entries@),
            models[i as int] == entries@[i as int]@,
            forall|k: int|
                0 <= k < j && k != i && (#[trigger] models[k]).table_key
                    == models[i as int].table_key ==> if k < i {
                    models[k].table_version < models[i as int].table_version
                } else {
                    models[k].table_version <= models[i as int].table_version
                },
        decreases entries.len() - j,
    {
        assert(models[j as int] == entries@[j as int]@);
        if j != i && entries[j].table_key == entries[i].table_key {
            if j < i && entries[j].table_version >= entries[i].table_version {
                return false;
            }
            if j > i && entries[j].table_version > entries[i].table_version {
                return false;
            }
        }
        j += 1;
    }
    true
}

/// Whether a removal covers a version of a table.
fn is_sealed(tombstones: &Vec<(String, u64)>, alias: &String, version: u64) -> (answer: bool)
    ensures
        answer == sealed(views(tombstones@), alias@, version),
{
    let ghost models = views(tombstones@);
    let mut k: usize = 0;
    while k < tombstones.len()
        invariant
            k <= tombstones.len(),
            models == views(tombstones@),
            forall|j: int|
                0 <= j < k ==> !((#[trigger] models[j]).0 == alias@ && models[j].1 >= version),
        decreases tombstones.len() - k,
    {
        assert(models[k as int] == tombstones@[k as int]@);
        if tombstones[k].0 == *alias && tombstones[k].1 >= version {
            return true;
        }
        k += 1;
    }
    false
}

/// Reduces version entries and removals to the live tables: the latest version of
/// each, unless a removal covers it, by alias.
pub fn assemble_manifest_state(
    version: u64,
    version_entries: &Vec<SubTableEntry>,
    tombstones: &Vec<(String, u64)>,
) -> (state: ManifestState)
    ensures
        state.version == version,
        views(state.entries@) == assembled(views(version_entries@), views(tombstones@)),
{
    let ghost models = views(version_entries@);
    let ghost removed = views(tombstones@);
    let mut live: Vec<SubTableEntry> = Vec::new();
    let mut i: usize = 0;
    assert(views(live@) =~= live_entries(models, removed, 0));
    while i < version_entries.len()
        invariant
            i <= version_entries.len(),
            models == views(version_entries@),
            removed == views(tombstones@),
            views(live@) == live_entries(models, removed, i as int),
        decreases version_entries.len() - i,
    {
        let entry: &SubTableEntry = &version_entries[i];
        assert(models[i as int] == entry@);
        if is_latest_entry(version_entries, i) && !is_sealed(
            tombstones,
            &entry.table_key,
            entry.table_version,
        ) {
            let ghost before = live@;
            live.push(entry.replicate());
            assert(views(live@) =~= views(before).push(entry@));
        }
        i += 1;
    }
    ManifestState { version, entries: sort(live) }
}

/// The metadata of a row as far as it could be decoded.
#[derive(Debug, PartialEq, Eq)]
pub enum RowMetadata {
    Table(Result<TableVersionMetadata, OmniError>),
    Commit(Result<GraphCommitMetadata, String>),
    /// Not decoded.
    Unread,
}

/// Whether the metadata of a row was decoded as its type asks.
pub open spec fn row_decoded(row: ManifestRowModel, metadata: RowMetadata, lineage: bool) -> bool {
    &&& row.object_type == OBJECT_TYPE_TABLE_VERSION@ && row.metadata is Some ==> metadata is Table
    &&& lineage && row.object_type == OBJECT_TYPE_GRAPH_COMMIT@ && row.metadata is Some
        ==> metadata is Commit
}

/// What has been read of the manifest.
#[derive(Debug, PartialEq, Eq)]
pub struct ManifestScan {
    /// Where tables are, by alias. Of two locations of the same alias the one that
    /// was read later counts.
    pub table_locations: Vec<(String, String)>,
    pub version_entries: Vec<SubTableEntry>,
    pub tombstones: Vec<(String, u64)>,
    pub lineage_rows: Vec<GraphLineageRow>,
}

/// What a [`ManifestScan`] stands for.
pub struct ManifestScanModel {
    pub table_locations: Seq<(Seq<char>, Seq<char>)>,
    pub version_entries: Seq<SubTableEntryModel>,
    pub tombstones: Seq<(Seq<char>, u64)>,
    pub lineage_rows: Seq<GraphLineageRowModel>,
}

impl View for ManifestScan {
    type V = ManifestScanModel;

    open spec fn view(&self) -> ManifestScanModel {
        ManifestScanModel {
            table_locations: views(self.table_locations@),
            version_entries: views(self.version_entries@),
            tombstones: views(self.tombstones@),
            lineage_rows: views(self.lineage_rows@),
        }
    }
}

impl ManifestScanModel {
    /// Nothing read yet.
    pub open spec fn nothing() -> Self {
        ManifestScanModel {
            table_locations: Seq::empty(),
            version_entries: Seq::empty(),
            tombstones: Seq::empty(),
            lineage_rows: Seq::empty(),
        }
    }
}

impl ManifestScan {
    /// Nothing read yet.
    pub fn new() -> (scan: Self)
        ensures
            scan@ == ManifestScanModel::nothing(),
    {
        let scan = ManifestScan {
            table_locations: Vec::new(),
            version_entries: Vec::new(),
            tombstones: Vec::new(),
            lineage_rows: Vec::new(),
        };
        assert(scan@.table_locations =~= Seq::empty());
        assert(scan@.version_entries =~= Seq::empty());
        assert(scan@.tombstones =~= Seq::empty());
        assert(scan@.lineage_rows =~= Seq::empty());
        scan
    }
}

/// The version entry that row `index` of a batch holds, or why it cannot be told.
/// Its location is found later.
pub open spec fn version_entry(
    row: ManifestRowModel,
    index: nat,
    decoded: Result<TableVersionMetadata, OmniError>,
) -> Result<SubTableEntryModel, OmniErrorModel> {
    match (row.table_version, row.row_count) {
        (None, _) => Err(null_cell("table_version"@, index)),
        (Some(_), None) => Err(null_cell("row_count"@, index)),
        (Some(version), Some(count)) => if row.metadata is None {
            Err(internal("manifest table_version row missing metadata for "@ + row.table_key))
        } else {
            match decoded {
                Err(error) => Err(error@),
                Ok(metadata) => Ok(
                    SubTableEntryModel {
                        table_key: row.table_key,
                        table_path: Seq::empty(),
                        table_version: version,
                        table_branch: row.table_branch,
                        row_count: count,
                        version_metadata: metadata@,
                    },
                ),
            }
        },
    }
}

/// What row `index` of a batch adds to a scan, or why it cannot be told. Rows of
/// other types are passed over.
pub open spec fn with_row(
    scan: ManifestScanModel,
    row: ManifestRowModel,
    index: nat,
    metadata: RowMetadata,
    lineage: bool,
) -> Result<ManifestScanModel, OmniErrorModel> {
    if row.object_type == OBJECT_TYPE_TABLE@ {
        match row.location {
            None => Err(
                internal("manifest table row missing location for "@ + row.table_key),
            ),
            Some(location) => Ok(
                ManifestScanModel {
                    table_locations: scan.table_locations.push((row.table_key, location)),
                    ..scan
                },
            ),
        }
    } else if row.object_type == OBJECT_TYPE_TABLE_VERSION@ {
        match version_entry(row, index, metadata->Table_0) {
            Err(error) => Err(error),
            Ok(entry) => Ok(
                ManifestScanModel { version_entries: scan.version_entries.push(entry), ..scan },
            ),
        }
    } else if row.object_type == OBJECT_TYPE_TABLE_TOMBSTONE@ {
        match row.table_version {
            None => Err(null_cell("table_version"@, index)),
            Some(version) => Ok(
                ManifestScanModel {
                    tombstones: scan.tombstones.push((row.table_key, version)),
                    ..scan
                },
            ),
        }
    } else if lineage && row.object_type == OBJECT_TYPE_GRAPH_COMMIT@ {
        match decoded_commit(row, index, metadata->Commit_0) {
            Err(error) => Err(error),
            Ok(commit) => Ok(
                ManifestScanModel { lineage_rows: scan.lineage_rows.push(commit), ..scan },
            ),
        }
    } else {
        Ok(scan)
    }
}

/// What the first `n` rows of a batch add to a scan.
pub open spec fn with_rows(
    scan: ManifestScanModel,
    rows: Seq<ManifestRowModel>,
    metadata: Seq<RowMetadata>,
    lineage: bool,
    n: int,
) -> Result<ManifestScanModel, OmniErrorModel>
    decreases n,
{
    if n <= 0 {
        Ok(scan)
    } else {
        match with_rows(scan, rows, metadata, lineage, n - 1) {
            Err(error) => Err(error),
            Ok(before) => with_row(
                before,
                rows[n - 1],
                (n - 1) as nat,
                metadata[n - 1],
                lineage,
            ),
        }
    }
}

/// An error among the first rows is the error of all of them.
proof fn lemma_rows_error(
    scan: ManifestScanModel,
    rows: Seq<ManifestRowModel>,
    metadata: Seq<RowMetadata>,
    lineage: bool,
    n: int,
    m: int,
)
    requires
        n <= m,
        with_rows(scan, rows, metadata, lineage, n) is Err,
    ensures
        with_rows(scan, rows, metadata, lineage, m) == with_rows(
            scan,
            rows,
            metadata,
            lineage,
            n,
        ),
    decreases m - n,
{
    if n < m {
        lemma_rows_error(scan, rows, metadata, lineage, n, m - 1);
    }
}

/// The version entry that row `index` of a batch holds.
fn decode_version_entry(
    row: &ManifestRow,
    index: usize,
    decoded: &Result<TableVersionMetadata, OmniError>,
) -> (result: Result<SubTableEntry, OmniError>)
    ensures
        match version_entry(row@, index as nat, *decoded) {
            Ok(entry) => result is Ok && result->Ok_0@ == entry,
            Err(error) => result is Err && result->Err_0@ == error,
        },
{
    let table_version: u64 = match required_u64(row.table_version, index, "table_version") {
        Ok(version) => version,
        Err(error) => {
            return Err(error);
        },
    };
    let row_count: u64 = match required_u64(row.row_count, index, "row_count") {
        Ok(count) => count,
        Err(error) => {
            return Err(error);
        },
    };
    if row.metadata.is_none() {
        let message: String = cat2(
            "manifest table_version row missing metadata for ",
            row.table_key.as_str(),
        );
        return Err(OmniError::manifest_internal(message.as_str()));
    }
    match decoded {
        Err(error) => Err(error.replicate()),
        Ok(metadata) => {
            let table_path: String = String::new();
            assert(table_path@ =~= Seq::empty());
            Ok(
                SubTableEntry {
                    table_key: row.table_key.clone(),
                    table_path,
                    table_version,
                    table_branch: replicate_opt(&row.table_branch),
                    row_count,
                    version_metadata: metadata.replicate(),
                },
            )
        },
    }
}

/// Adds one row to a scan.
fn scan_row(
    scan: &mut ManifestScan,
    row: &ManifestRow,
    index: usize,
    metadata: &RowMetadata,
    lineage: bool,
) -> (result: Result<(), OmniError>)
    requires
        row_decoded(row@, *metadata, lineage),
    ensures
        match with_row(old(scan)@, row@, index as nat, *metadata, lineage) {
            Ok(read) => result is Ok && final(scan)@ == read,
            Err(error) => result is Err && result->Err_0@ == error,
        },
{
    let kind: &str = row.object_type.as_str();
    if same_text(kind, OBJECT_TYPE_TABLE) {
        match &row.location {
            Some(location) => {
                let ghost before = scan.table_locations@;
                scan.table_locations.push((row.table_key.clone(), location.clone()));
                assert(views(scan.table_locations@) =~= views(before).push(
                    (row.table_key@, location@),
                ));
            },
            None => {
                let message: String = cat2(
                    "manifest table row missing location for ",
                    row.table_key.as_str(),
                );
                return Err(OmniError::manifest_internal(message.as_str()));
            },
        }
    } else if same_text(kind, OBJECT_TYPE_TABLE_VERSION) {
        let entry: Result<SubTableEntry, OmniError> = match metadata {
            RowMetadata::Table(decoded) => decode_version_entry(row, index, decoded),
            _ => {
                assert(row.metadata is None);
                let unread: Result<TableVersionMetadata, OmniError> = Err(
                    OmniError::manifest_internal("not decoded"),
                );
                decode_version_entry(row, index, &unread)
            },
        };
        match entry {
            Ok(entry) => {
                let ghost before = scan.version_entries@;
                scan.version_entries.push(entry);
                assert(views(scan.version_entries@) =~= views(before).push(entry@));
            },
            Err(error) => {
                return Err(error);
            },
        }
    } else if same_text(kind, OBJECT_TYPE_TABLE_TOMBSTONE) {
        match required_u64(row.table_version, index, "table_version") {
            Ok(version) => {
                let ghost before = scan.tombstones@;
                scan.tombstones.push((row.table_key.clone(), version));
                assert(views(scan.tombstones@) =~= views(before).push((row.table_key@, version)));
            },
            Err(error) => {
                return Err(error);
            },
        }
    } else if lineage && same_text(kind, OBJECT_TYPE_GRAPH_COMMIT) {
        let commit: Result<GraphLineageRow, OmniError> = match metadata {
            RowMetadata::Commit(decoded) => decode_graph_commit_row(row, index, decoded),
            _ => {
                assert(row.metadata is None);
                let unread: Result<GraphCommitMetadata, String> = Err(String::new());
                decode_graph_commit_row(row, index, &unread)
            },
        };
        match commit {
            Ok(commit) => {
                let ghost before = scan.lineage_rows@;
                scan.lineage_rows.push(commit);
                assert(views(scan.lineage_rows@) =~= views(before).push(commit@));
            },
            Err(error) => {
                return Err(error);
            },
        }
    }
    Ok(())
}

/// Adds the rows of one more batch to a scan. `metadata` holds what could be
/// decoded of each row's metadata; commits are only read where lineage is wanted.
pub fn scan_rows(
    scan: ManifestScan,
    rows: &Vec<ManifestRow>,
    metadata: &Vec<RowMetadata>,
    collect_lineage: bool,
) -> (result: Result<ManifestScan, OmniError>)
    requires
        metadata.len() == rows.len(),
        forall|i: int|
            0 <= i < rows.len() ==> row_decoded(
                (#[trigger] rows@[i])@,
                metadata@[i],
                collect_lineage,
            ),
    ensures
        match with_rows(scan@, views(rows@), metadata@, collect_lineage, rows@.len() as int) {
            Ok(read) => result is Ok && result->Ok_0@ == read,
            Err(error) => result is Err && result->Err_0@ == error,
        },
{
    let ghost start = scan@;
    let ghost models = views(rows@);
    let mut read: ManifestScan = scan;
    let mut i: usize = 0;
    while i < rows.len()
        invariant
            i <= rows.len(),
            start == scan@,
            models == views(rows@),
            metadata.len() == rows.len(),
            forall|j: int|
                0 <= j < rows.len() ==> row_decoded(
                    (#[trigger] rows@[j])@,
                    metadata@[j],
                    collect_lineage,
                ),
            with_rows(start, models, metadata@, collect_lineage, i as int) == Ok::<
                ManifestScanModel,
                OmniErrorModel,
            >(read@),
        decreases rows.len() - i,
    {
        assert(models[i as int] == rows@[i as int]@);
        let ghost step = with_row(
            read@,
            models[i as int],
            i as nat,
            metadata@[i as int],
            collect_lineage,
        );
        assert(step == with_rows(start, models, metadata@, collect_lineage, i + 1));
        if let Err(error) = scan_row(&mut read, &rows[i], i, &metadata[i], collect_lineage) {
            proof {
                lemma_rows_error(
                    start,
                    models,
                    metadata@,
                    collect_lineage,
                    i + 1,
                    rows@.len() as int,
                );
            }
            return Err(error);
        }
        i += 1;
    }
    Ok(read)
}

/// A version entry with its location.
pub open spec fn located(
    entry: SubTableEntryModel,
    locations: Seq<(Seq<char>, Seq<char>)>,
) -> SubTableEntryModel {
    SubTableEntryModel { table_path: last_value(locations, entry.table_key)->0, ..entry }
}

/// The errors for entries whose table has no location.
pub open spec fn unlocated(
    entries: Seq<SubTableEntryModel>,
    locations: Seq<(Seq<char>, Seq<char>)>,
) -> Seq<Option<OmniErrorModel>> {
    Seq::new(
        entries.len(),
        |i: int|
            if last_value(locations, entries[i].table_key) is None {
                Some(internal("manifest missing table row for "@ + entries[i].table_key))
            } else {
                None
            },
    )
}

/// The version entries with their locations, in reading order.
pub open spec fn located_entries(
    entries: Seq<SubTableEntryModel>,
    locations: Seq<(Seq<char>, Seq<char>)>,
) -> Seq<SubTableEntryModel> {
    Seq::new(entries.len(), |i: int| located(entries[i], locations))
}

/// Finishes a scan: every version entry gets the location of its table, and they
/// are sorted by alias and version.
pub fn finish_scan(scan: ManifestScan) -> (result: Result<ManifestScan, OmniError>)
    ensures
        match first_defect(unlocated(scan@.version_entries, scan@.table_locations)) {
            Some(error) => result is Err && result->Err_0@ == error,
            None => {
                &&& result is Ok
                &&& result->Ok_0@ == (ManifestScanModel {
                    version_entries: ranked::<SubTableEntry>(
                        located_entries(scan@.version_entries, scan@.table_locations),
                    ),
                    ..scan@
                })
            },
        },
{
    let ghost models = scan@.version_entries;
    let ghost locations = scan@.table_locations;
    let ghost faults = unlocated(models, locations);
    let ghost expected = located_entries(models, locations);
    let entries: &Vec<SubTableEntry> = &scan.version_entries;
    let mut placed: Vec<SubTableEntry> = Vec::new();
    let mut i: usize = 0;
    while i < entries.len()
        invariant
            i <= entries.len(),
            *entries == scan.version_entries,
            models == views(entries@),
            locations == views(scan.table_locations@),
            faults == unlocated(models, locations),
            expected == located_entries(models, locations),
            forall|j: int| 0 <= j < i ==> faults[j] is None,
            placed.len() == i,
            forall|j: int| 0 <= j < i ==> (#[trigger] placed@[j])@ == expected[j],
        decreases entries.len() - i,
    {
        assert(models[i as int] == entries@[i as int]@);
        match value_of(&scan.table_locations, entries[i].table_key.as_str()) {
            Some(location) => {
                let mut entry: SubTableEntry = entries[i].replicate();
                entry.table_path = location.clone();
                placed.push(entry);
            },
            None => {
                let message: String = cat2(
                    "manifest missing table row for ",
                    entries[i].table_key.as_str(),
                );
                let error: OmniError = OmniError::manifest_internal(message.as_str());
                proof {
                    assert(faults[i as int] == Some(error@));
                    lemma_first_defect(faults, i as int);
                }
                return Err(error);
            },
        }
        i += 1;
    }
    proof {
        lemma_no_defect(faults);
        assert(views(placed@) =~= expected);
    }
    Ok(
        ManifestScan {
            table_locations: scan.table_locations,
            version_entries: sort(placed),
            tombstones: scan.tombstones,
            lineage_rows: scan.lineage_rows,
        },
    )
}

/// The live tables that a finished scan shows.
pub fn read_manifest_state(version: u64, scan: &ManifestScan) -> (state: ManifestState)
    ensures
        state.version == version,
        views(state.entries@) == assembled(scan@.version_entries, scan@.tombstones),
{
    assemble_manifest_state(version, &scan.version_entries, &scan.tombstones)
}

/// The row that binds a table to its location.
pub open spec fn table_row(entry: SubTableEntryModel) -> ManifestRowModel {
    ManifestRowModel {
        object_id: entry.table_key,
        object_type: OBJECT_TYPE_TABLE@,
        location: Some(entry.table_path),
        metadata: None,
        table_key: entry.table_key,
        table_version: None,
        table_branch: None,
        row_count: None,
    }
}

/// The row that selects a version of a table.
pub open spec fn version_row(
    entry: SubTableEntryModel,
    object_id: Seq<char>,
    metadata: Seq<char>,
) -> ManifestRowModel {
    ManifestRowModel {
        object_id,
        object_type: OBJECT_TYPE_TABLE_VERSION@,
        location: None,
        metadata: Some(metadata),
        table_key: entry.table_key,
        table_version: Some(entry.table_version),
        table_branch: entry.table_branch,
        row_count: Some(entry.row_count),
    }
}

/// The rows of the first `n` tables, two each.
pub open spec fn table_rows(
    entries: Seq<SubTableEntryModel>,
    object_ids: Seq<Seq<char>>,
    metadata: Seq<(Seq<char>, Seq<char>)>,
    n: int,
) -> Seq<ManifestRowModel>
    decreases n,
{
    if n <= 0 {
        Seq::empty()
    } else {
        table_rows(entries, object_ids, metadata, n - 1).push(table_row(entries[n - 1])).push(
            version_row(
                entries[n - 1],
                object_ids[n - 1],
                last_value(metadata, entries[n - 1].table_key)->0,
            ),
        )
    }
}

/// The rows of the pieces of commits.
pub open spec fn part_rows(parts: Seq<GraphLineageRowPartModel>) -> Seq<ManifestRowModel> {
    Seq::new(parts.len(), |i: int| part_row(parts[i]))
}

/// The errors for tables without version metadata.
pub open spec fn undescribed(
    entries: Seq<SubTableEntryModel>,
    metadata: Seq<(Seq<char>, Seq<char>)>,
) -> Seq<Option<OmniErrorModel>> {
    Seq::new(
        entries.len(),
        |i: int|
            if last_value(metadata, entries[i].table_key) is None {
                Some(internal("missing initial version metadata for "@ + entries[i].table_key))
            } else {
                None
            },
    )
}

/// The rows of a fresh manifest: its tables, then the pieces of its first commit.
pub open spec fn initial_rows(
    entries: Seq<SubTableEntryModel>,
    object_ids: Seq<Seq<char>>,
    metadata: Seq<(Seq<char>, Seq<char>)>,
    parts: Seq<GraphLineageRowPartModel>,
) -> Seq<ManifestRowModel> {
    table_rows(entries, object_ids, metadata, entries.len() as int) + part_rows(parts)
}

/// The rows of a fresh manifest. `version_object_ids` holds the id of each table's
/// version row.
pub fn build_initial_rows(
    entries: &Vec<SubTableEntry>,
    version_object_ids: &Vec<String>,
    version_metadata: &Vec<(String, String)>,
    genesis_lineage: &Vec<GraphLineageRowPart>,
) -> (result: Result<Vec<ManifestRow>, OmniError>)
    requires
        version_object_ids.len() == entries.len(),
    ensures
        match first_defect(undescribed(views(entries@), views(version_metadata@))) {
            Some(error) => result is Err && result->Err_0@ == error,
            None => result is Ok && views(result->Ok_0@) == initial_rows(
                views(entries@),
                views(version_object_ids@),
                views(version_metadata@),
                views(genesis_lineage@),
            ),
        },
{
    let ghost models = views(entries@);
    let ghost ids = views(version_object_ids@);
    let ghost described = views(version_metadata@);
    let ghost parts = views(genesis_lineage@);
    let ghost faults = undescribed(models, described);
    let mut rows: Vec<ManifestRow> = Vec::new();
    let mut i: usize = 0;
    assert(views(rows@) =~= table_rows(models, ids, described, 0));
    while i < entries.len()
        invariant
            i <= entries.len(),
            version_object_ids.len() == entries.len(),
            models == views(entries@),
            ids == views(version_object_ids@),
            described == views(version_metadata@),
            faults == undescribed(models, described),
            forall|j: int| 0 <= j < i ==> faults[j] is None,
            views(rows@) == table_rows(models, ids, described, i as int),
        decreases entries.len() - i,
    {
        let entry: &SubTableEntry = &entries[i];
        assert(models[i as int] == entry@);
        assert(ids[i as int] == version_object_ids@[i as int]@);
        let metadata: &String = match value_of(version_metadata, entry.table_key.as_str()) {
            Some(metadata) => metadata,
            None => {
                let message: String = cat2(
                    "missing initial version metadata for ",
                    entry.table_key.as_str(),
                );
                let error: OmniError = OmniError::manifest_internal(message.as_str());
                proof {
                    assert(faults[i as int] == Some(error@));
                    lemma_first_defect(faults, i as int);
                }
                return Err(error);
            },
        };
        let ghost before = rows@;
        rows.push(
            ManifestRow {
                object_id: entry.table_key.clone(),
                object_type: OBJECT_TYPE_TABLE.to_owned(),
                location: Some(entry.table_path.clone()),
                metadata: None,
                table_key: entry.table_key.clone(),
                table_version: None,
                table_branch: None,
                row_count: None,
            },
        );
        rows.push(
            ManifestRow {
                object_id: version_object_ids[i].clone(),
                object_type: OBJECT_TYPE_TABLE_VERSION.to_owned(),
                location: None,
                metadata: Some(metadata.clone()),
                table_key: entry.table_key.clone(),
                table_version: Some(entry.table_version),
                table_branch: replicate_opt(&entry.table_branch),
                row_count: Some(entry.row_count),
            },
        );
        assert(views(rows@) =~= views(before).push(table_row(entry@)).push(
            version_row(entry@, ids[i as int], metadata@),
        ));
        i += 1;
    }
    proof {
        lemma_no_defect(faults);
    }
    let ghost tables = views(rows@);
    let ghost pieces = part_rows(parts);
    let mut k: usize = 0;
    assert(tables + pieces.subrange(0, 0) =~= tables);
    while k < genesis_lineage.len()
        invariant
            k <= genesis_lineage.len(),
            parts == views(genesis_lineage@),
            pieces == part_rows(parts),
            views(rows@) == tables + pieces.subrange(0, k as int),
        decreases genesis_lineage.len() - k,
    {
        let part: &GraphLineageRowPart = &genesis_lineage[k];
        assert(parts[k as int] == part@);
        let table_key: String = String::new();
        assert(table_key@ =~= Seq::empty());
        let ghost before = rows@;
        rows.push(
            ManifestRow {
                object_id: part.object_id.clone(),
                object_type: part.object_type.to_owned(),
                location: None,
                metadata: Some(part.metadata.clone()),
                table_key,
                table_version: part.table_version,
                table_branch: replicate_opt(&part.table_branch),
                row_count: None,
            },
        );
        assert(pieces.subrange(0, k + 1) =~= pieces.subrange(0, k as int).push(pieces[k as int]));
        assert(views(rows@) =~= views(before).push(part_row(part@)));
        assert(views(rows@) =~= tables + pieces.subrange(0, k + 1));
        k += 1;
    }
    assert(pieces.subrange(0, pieces.len() as int) =~= pieces);
    Ok(rows)
}

/// Builds the batch of a fresh manifest.
pub fn entries_to_batch(
    entries: &Vec<SubTableEntry>,
    version_object_ids: &Vec<String>,
    version_metadata: &Vec<(String, String)>,
    genesis_lineage: &Vec<GraphLineageRowPart>,
) -> (result: Result<ManifestBatch, OmniError>)
    requires
        version_object_ids.len() == entries.len(),
        first_defect(undescribed(views(entries@), views(version_metadata@))) is None ==> rows_fit(
            initial_rows(
                views(entries@),
                views(version_object_ids@),
                views(version_metadata@),
                views(genesis_lineage@),
            ),
        ),
    ensures
        match first_defect(undescribed(views(entries@), views(version_metadata@))) {
            Some(error) => result is Err && result->Err_0@ == error,
            None => result is Ok && holds_rows(
                result->Ok_0,
                initial_rows(
                    views(entries@),
                    views(version_object_ids@),
                    views(version_metadata@),
                    views(genesis_lineage@),
                ),
            ),
        },
{
    match build_initial_rows(entries, version_object_ids, version_metadata, genesis_lineage) {
        Ok(rows) => rows_to_batch(&rows),
        Err(error) => Err(error),
    }
}

} // verus!
