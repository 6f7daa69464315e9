//! Manifest rows: out of record batches and into them.

use vstd::prelude::*;

use crate::batch::{
    batch_rows, conforms, fits_offsets, holds, holds_cells, holds_column, is_within_offsets,
    lemma_manifest_names, manifest_fields, manifest_schema, new_batch, row_total, string_column,
    texts, u64_column, uint64_columns, uint64_fault, utf8_columns, utf8_fault, BatchColumn,
    BatchColumnModel, ManifestBatch,
};
use crate::error::{OmniError, OmniErrorModel};
use crate::shape::defect::first_defect;
use crate::value::{opt_view, replicate_opt, views};

verus! {

/// A row of the manifest. The columns that were not read are empty.
#[derive(Debug, PartialEq, Eq)]
pub struct ManifestRow {
    pub object_id: String,
    pub object_type: String,
    pub location: Option<String>,
    pub metadata: Option<String>,
    pub table_key: String,
    pub table_version: Option<u64>,
    pub table_branch: Option<String>,
    pub row_count: Option<u64>,
}

/// What a [`ManifestRow`] stands for.
pub struct ManifestRowModel {
    pub object_id: Seq<char>,
    pub object_type: Seq<char>,
    pub location: Option<Seq<char>>,
    pub metadata: Option<Seq<char>>,
    pub table_key: Seq<char>,
    pub table_version: Option<u64>,
    pub table_branch: Option<Seq<char>>,
    pub row_count: Option<u64>,
}

impl View for ManifestRow {
    type V = ManifestRowModel;

    open spec fn view(&self) -> ManifestRowModel {
        ManifestRowModel {
            object_id: self.object_id@,
            object_type: self.object_type@,
            location: opt_view(self.location),
            metadata: opt_view(self.metadata),
            table_key: self.table_key@,
            table_version: self.table_version,
            table_branch: opt_view(self.table_branch),
            row_count: self.row_count,
        }
    }
}

/// The text in a cell, where an empty cell counts as empty text.
pub open spec fn text_or_empty(cell: Option<Seq<char>>) -> Seq<char> {
    match cell {
        Some(text) => text,
        None => Seq::empty(),
    }
}

/// The text in a cell, where an empty cell counts as empty text.
fn take_text(cells: &Vec<Option<String>>, i: usize) -> (text: String)
    requires
        i < cells.len(),
    ensures
        text@ == text_or_empty(texts(cells@)[i as int]),
{
    match &cells[i] {
        Some(text) => text.clone(),
        None => {
            let text: String = String::new();
            assert(text@ =~= Seq::empty());
            text
        },
    }
}

/// What is wrong with the columns that table state is read from, in the order in
/// which they are read.
pub open spec fn state_findings(batch: ManifestBatch, with_ids: bool) -> Seq<
    Option<OmniErrorModel>,
> {
    seq![
        utf8_fault(batch, "object_type"@),
        utf8_fault(batch, "location"@),
        utf8_fault(batch, "metadata"@),
        utf8_fault(batch, "table_key"@),
        uint64_fault(batch, "table_version"@),
        utf8_fault(batch, "table_branch"@),
        uint64_fault(batch, "row_count"@),
        if with_ids {
            utf8_fault(batch, "object_id"@)
        } else {
            None
        },
    ]
}

/// A row as table state is read from it.
pub open spec fn state_row(batch: ManifestBatch, with_ids: bool, i: int) -> ManifestRowModel {
    ManifestRowModel {
        object_id: if with_ids {
            text_or_empty(utf8_columns(batch)["object_id"@][i])
        } else {
            Seq::empty()
        },
        object_type: text_or_empty(utf8_columns(batch)["object_type"@][i]),
        location: utf8_columns(batch)["location"@][i],
        metadata: utf8_columns(batch)["metadata"@][i],
        table_key: text_or_empty(utf8_columns(batch)["table_key"@][i]),
        table_version: uint64_columns(batch)["table_version"@][i],
        table_branch: utf8_columns(batch)["table_branch"@][i],
        row_count: uint64_columns(batch)["row_count"@][i],
    }
}

/// The rows of a batch as table state is read from them.
pub open spec fn state_rows(batch: ManifestBatch, with_ids: bool) -> Seq<ManifestRowModel> {
    Seq::new(batch_rows(batch), |i: int| state_row(batch, with_ids, i))
}

/// Reads the rows of a batch for the table state, with their object ids where
/// lineage is wanted too.
pub fn read_state_rows(batch: &ManifestBatch, with_ids: bool) -> (result: Result<
    Vec<ManifestRow>,
    OmniError,
>)
    ensures
        match first_defect(state_findings(*batch, with_ids)) {
            Some(error) => result is Err && result->Err_0@ == error,
            None => result is Ok && views(result->Ok_0@) == state_rows(*batch, with_ids),
        },
{
    proof {
        reveal_with_fuel(first_defect, 9);
        let findings = state_findings(*batch, with_ids);
        assert(findings.drop_first() =~= findings.subrange(1, 8));
        assert(findings.subrange(1, 8).drop_first() =~= findings.subrange(2, 8));
        assert(findings.subrange(2, 8).drop_first() =~= findings.subrange(3, 8));
        assert(findings.subrange(3, 8).drop_first() =~= findings.subrange(4, 8));
        assert(findings.subrange(4, 8).drop_first() =~= findings.subrange(5, 8));
        assert(findings.subrange(5, 8).drop_first() =~= findings.subrange(6, 8));
        assert(findings.subrange(6, 8).drop_first() =~= findings.subrange(7, 8));
        assert(findings.subrange(7, 8).drop_first() =~= Seq::empty());
    }
    let object_types: Vec<Option<String>> = match string_column(batch, "object_type") {
        Ok(cells) => cells,
        Err(error) => {
            return Err(error);
        },
    };
    let locations: Vec<Option<String>> = match string_column(batch, "location") {
        Ok(cells) => cells,
        Err(error) => {
            return Err(error);
        },
    };
    let metadata: Vec<Option<String>> = match string_column(batch, "metadata") {
        Ok(cells) => cells,
        Err(error) => {
            return Err(error);
        },
    };
    let table_keys: Vec<Option<String>> = match string_column(batch, "table_key") {
        Ok(cells) => cells,
        Err(error) => {
            return Err(error);
        },
    };
    let versions: Vec<Option<u64>> = match u64_column(batch, "table_version") {
        Ok(cells) => cells,
        Err(error) => {
            return Err(error);
        },
    };
    let branches: Vec<Option<String>> = match string_column(batch, "table_branch") {
        Ok(cells) => cells,
        Err(error) => {
            return Err(error);
        },
    };
    let row_counts: Vec<Option<u64>> = match u64_column(batch, "row_count") {
        Ok(cells) => cells,
        Err(error) => {
            return Err(error);
        },
    };
    let object_ids: Vec<Option<String>> = if with_ids {
        match string_column(batch, "object_id") {
            Ok(cells) => cells,
            Err(error) => {
                return Err(error);
            },
        }
    } else {
        Vec::new()
    };
    let total: usize = row_total(batch);
    let ghost expected = state_rows(*batch, with_ids);
    let mut rows: Vec<ManifestRow> = Vec::new();
    let mut i: usize = 0;
    while i < total
        invariant
            i <= total,
            total == batch_rows(*batch),
            expected == state_rows(*batch, with_ids),
            object_types.len() == total,
            locations.len() == total,
            metadata.len() == total,
            table_keys.len() == total,
            versions.len() == total,
            branches.len() == total,
            row_counts.len() == total,
            with_ids ==> object_ids.len() == total && texts(object_ids@) == utf8_columns(
                *batch,
            )["object_id"@],
            texts(object_types@) == utf8_columns(*batch)["object_type"@],
            texts(locations@) == utf8_columns(*batch)["location"@],
            texts(metadata@) == utf8_columns(*batch)["metadata"@],
            texts(table_keys@) == utf8_columns(*batch)["table_key"@],
            versions@ == uint64_columns(*batch)["table_version"@],
            texts(branches@) == utf8_columns(*batch)["table_branch"@],
            row_counts@ == uint64_columns(*batch)["row_count"@],
            rows.len() == i,
            forall|j: int| 0 <= j < i ==> (#[trigger] rows@[j])@ == expected[j],
        decreases total - i,
    {
        assert(texts(locations@)[i as int] == opt_view(locations@[i as int]));
        assert(texts(metadata@)[i as int] == opt_view(metadata@[i as int]));
        assert(texts(branches@)[i as int] == opt_view(branches@[i as int]));
        let object_id: String = if with_ids {
            take_text(&object_ids, i)
        } else {
            let text: String = String::new();
            assert(text@ =~= Seq::empty());
            text
        };
        rows.push(
            ManifestRow {
                object_id,
                object_type: take_text(&object_types, i),
                location: replicate_opt(&locations[i]),
                metadata: replicate_opt(&metadata[i]),
                table_key: take_text(&table_keys, i),
                table_version: versions[i],
                table_branch: replicate_opt(&branches[i]),
                row_count: row_counts[i],
            },
        );
        i += 1;
    }
    assert(views(rows@) =~= expected);
    Ok(rows)
}

/// What is wrong with the columns that lineage is read from, in the order in which
/// they are read.
pub open spec fn lineage_findings(batch: ManifestBatch) -> Seq<Option<OmniErrorModel>> {
    seq![
        utf8_fault(batch, "object_id"@),
        utf8_fault(batch, "object_type"@),
        utf8_fault(batch, "metadata"@),
        uint64_fault(batch, "table_version"@),
        utf8_fault(batch, "table_branch"@),
    ]
}

/// A row as lineage is read from it.
pub open spec fn lineage_row(batch: ManifestBatch, i: int) -> ManifestRowModel {
    ManifestRowModel {
        object_id: text_or_empty(utf8_columns(batch)["object_id"@][i]),
        object_type: text_or_empty(utf8_columns(batch)["object_type"@][i]),
        location: None,
        metadata: utf8_columns(batch)["metadata"@][i],
        table_key: Seq::empty(),
        table_version: uint64_columns(batch)["table_version"@][i],
        table_branch: utf8_columns(batch)["table_branch"@][i],
        row_count: None,
    }
}

/// The rows of a batch as lineage is read from them.
pub open spec fn lineage_rows(batch: ManifestBatch) -> Seq<ManifestRowModel> {
    Seq::new(batch_rows(batch), |i: int| lineage_row(batch, i))
}

/// Reads the rows of a batch for the graph lineage.
pub fn read_lineage_rows(batch: &ManifestBatch) -> (result: Result<Vec<ManifestRow>, OmniError>)
    ensures
        match first_defect(lineage_findings(*batch)) {
            Some(error) => result is Err && result->Err_0@ == error,
            None => result is Ok && views(result->Ok_0@) == lineage_rows(*batch),
        },
{
    proof {
        reveal_with_fuel(first_defect, 6);
        let findings = lineage_findings(*batch);
        assert(findings.drop_first() =~= findings.subrange(1, 5));
        assert(findings.subrange(1, 5).drop_first() =~= findings.subrange(2, 5));
        assert(findings.subrange(2, 5).drop_first() =~= findings.subrange(3, 5));
        assert(findings.subrange(3, 5).drop_first() =~= findings.subrange(4, 5));
        assert(findings.subrange(4, 5).drop_first() =~= Seq::empty());
    }
    let object_ids: Vec<Option<String>> = match string_column(batch, "object_id") {
        Ok(cells) => cells,
        Err(error) => {
            return Err(error);
        },
    };
    let object_types: Vec<Option<String>> = match string_column(batch, "object_type") {
        Ok(cells) => cells,
        Err(error) => {
            return Err(error);
        },
    };
    let metadata: Vec<Option<String>> = match string_column(batch, "metadata") {
        Ok(cells) => cells,
        Err(error) => {
            return Err(error);
        },
    };
    let versions: Vec<Option<u64>> = match u64_column(batch, "table_version") {
        Ok(cells) => cells,
        Err(error) => {
            return Err(error);
        },
    };
    let branches: Vec<Option<String>> = match string_column(batch, "table_branch") {
        Ok(cells) => cells,
        Err(error) => {
            return Err(error);
        },
    };
    let total: usize = row_total(batch);
    let ghost expected = lineage_rows(*batch);
    let mut rows: Vec<ManifestRow> = Vec::new();
    let mut i: usize = 0;
    while i < total
        invariant
            i <= total,
            total == batch_rows(*batch),
            expected == lineage_rows(*batch),
            object_ids.len() == total,
            object_types.len() == total,
            metadata.len() == total,
            versions.len() == total,
            branches.len() == total,
            texts(object_ids@) == utf8_columns(*batch)["object_id"@],
            texts(object_types@) == utf8_columns(*batch)["object_type"@],
            texts(metadata@) == utf8_columns(*batch)["metadata"@],
            versions@ == uint64_columns(*batch)["table_version"@],
            texts(branches@) == utf8_columns(*batch)["table_branch"@],
            rows.len() == i,
            forall|j: int| 0 <= j < i ==> (#[trigger] rows@[j])@ == expected[j],
        decreases total - i,
    {
        assert(texts(metadata@)[i as int] == opt_view(metadata@[i as int]));
        assert(texts(branches@)[i as int] == opt_view(branches@[i as int]));
        let table_key: String = String::new();
        assert(table_key@ =~= Seq::empty());
        rows.push(
            ManifestRow {
                object_id: take_text(&object_ids, i),
                object_type: take_text(&object_types, i),
                location: None,
                metadata: replicate_opt(&metadata[i]),
                table_key,
                table_version: versions[i],
                table_branch: replicate_opt(&branches[i]),
                row_count: None,
            },
        );
        i += 1;
    }
    assert(views(rows@) =~= expected);
    Ok(rows)
}

/// Cells that are all there.
pub open spec fn present(cells: Seq<Seq<char>>) -> Seq<Option<Seq<char>>> {
    Seq::new(cells.len(), |i: int| Some(cells[i]))
}

/// Turns text into cells that are all there.
fn all_present(values: Vec<String>) -> (cells: Vec<Option<String>>)
    ensures
        texts(cells@) == present(views(values@)),
        cells.len() == values.len(),
{
    let ghost expected = present(views(values@));
    let mut cells: Vec<Option<String>> = Vec::new();
    let mut i: usize = 0;
    while i < values.len()
        invariant
            i <= values.len(),
            expected == present(views(values@)),
            cells.len() == i,
            forall|j: int| 0 <= j < i ==> opt_view(#[trigger] cells@[j]) == expected[j],
        decreases values.len() - i,
    {
        cells.push(Some(values[i].clone()));
        i += 1;
    }
    assert(texts(cells@) =~= expected);
    cells
}

/// The columns of manifest rows, in the order of the manifest's fields. The
/// reserved column of base objects stays empty.
pub open spec fn manifest_columns(
    object_ids: Seq<Seq<char>>,
    object_types: Seq<Seq<char>>,
    locations: Seq<Option<Seq<char>>>,
    metadata: Seq<Option<Seq<char>>>,
    table_keys: Seq<Seq<char>>,
    table_versions: Seq<Option<u64>>,
    table_branches: Seq<Option<Seq<char>>>,
    row_counts: Seq<Option<u64>>,
) -> Seq<BatchColumnModel> {
    seq![
        BatchColumnModel::Utf8(present(object_ids)),
        BatchColumnModel::Utf8(present(object_types)),
        BatchColumnModel::Utf8(locations),
        BatchColumnModel::Utf8(metadata),
        BatchColumnModel::EmptyLists(object_ids.len()),
        BatchColumnModel::Utf8(present(table_keys)),
        BatchColumnModel::UInt64(table_versions),
        BatchColumnModel::Utf8(table_branches),
        BatchColumnModel::UInt64(row_counts),
    ]
}

/// Whether all columns have the same length.
pub open spec fn equally_long(columns: Seq<BatchColumnModel>) -> bool {
    forall|i: int|
        0 <= i < columns.len() ==> (#[trigger] columns[i]).count() == columns[0].count()
}

/// Builds a batch of manifest rows from their columns. Columns of different length
/// are refused by the store.
pub fn manifest_rows_batch(
    object_ids: Vec<String>,
    object_types: Vec<String>,
    locations: Vec<Option<String>>,
    metadata: Vec<Option<String>>,
    table_keys: Vec<String>,
    table_versions: Vec<Option<u64>>,
    table_branches: Vec<Option<String>>,
    row_counts: Vec<Option<u64>>,
) -> (result: Result<ManifestBatch, OmniError>)
    requires
        fits_offsets(present(views(object_ids@))),
        fits_offsets(present(views(object_types@))),
        fits_offsets(texts(locations@)),
        fits_offsets(texts(metadata@)),
        fits_offsets(present(views(table_keys@))),
        fits_offsets(texts(table_branches@)),
    ensures
        ({
            let columns = manifest_columns(
                views(object_ids@),
                views(object_types@),
                texts(locations@),
                texts(metadata@),
                views(table_keys@),
                table_versions@,
                texts(table_branches@),
                row_counts@,
            );
            if equally_long(columns) {
                result is Ok && holds(result->Ok_0, manifest_fields(), columns)
            } else {
                result is Err && result->Err_0@ is Lance
            }
        }),
{
    let ghost expected = manifest_columns(
        views(object_ids@),
        views(object_types@),
        texts(locations@),
        texts(metadata@),
        views(table_keys@),
        table_versions@,
        texts(table_branches@),
        row_counts@,
    );
    let total: usize = object_ids.len();
    let mut columns: Vec<BatchColumn> = Vec::new();
    columns.push(BatchColumn::Utf8(all_present(object_ids)));
    columns.push(BatchColumn::Utf8(all_present(object_types)));
    columns.push(BatchColumn::Utf8(locations));
    columns.push(BatchColumn::Utf8(metadata));
    columns.push(BatchColumn::EmptyLists(total));
    columns.push(BatchColumn::Utf8(all_present(table_keys)));
    columns.push(BatchColumn::UInt64(table_versions));
    columns.push(BatchColumn::Utf8(table_branches));
    columns.push(BatchColumn::UInt64(row_counts));
    let schema = manifest_schema();
    proof {
        assert(views(columns@) =~= expected);
        lemma_manifest_names();
        let fields = manifest_fields();
        assert(expected[0].count() == views(object_ids@).len());
        if equally_long(expected) {
            assert forall|i: int| 0 <= i < expected.len() implies {
                &&& (#[trigger] expected[i]).count() == expected[0].count()
                &&& expected[i].kind() == fields[i].kind
                &&& fields[i].nullable || expected[i].full()
            } by {}
            assert(conforms(fields, expected));
        }
    }
    match new_batch(schema, columns) {
        Ok(batch) => Ok(batch),
        Err(message) => Err(OmniError::Lance { message }),
    }
}

/// The object ids of a list of rows.
pub open spec fn object_ids_of(rows: Seq<ManifestRowModel>) -> Seq<Seq<char>> {
    Seq::new(rows.len(), |i: int| rows[i].object_id)
}

/// The object types of a list of rows.
pub open spec fn object_types_of(rows: Seq<ManifestRowModel>) -> Seq<Seq<char>> {
    Seq::new(rows.len(), |i: int| rows[i].object_type)
}

/// The locations of a list of rows.
pub open spec fn locations_of(rows: Seq<ManifestRowModel>) -> Seq<Option<Seq<char>>> {
    Seq::new(rows.len(), |i: int| rows[i].location)
}

/// The metadata of a list of rows.
pub open spec fn metadata_of(rows: Seq<ManifestRowModel>) -> Seq<Option<Seq<char>>> {
    Seq::new(rows.len(), |i: int| rows[i].metadata)
}

/// The table keys of a list of rows.
pub open spec fn table_keys_of(rows: Seq<ManifestRowModel>) -> Seq<Seq<char>> {
    Seq::new(rows.len(), |i: int| rows[i].table_key)
}

/// The table versions of a list of rows.
pub open spec fn table_versions_of(rows: Seq<ManifestRowModel>) -> Seq<Option<u64>> {
    Seq::new(rows.len(), |i: int| rows[i].table_version)
}

/// The table branches of a list of rows.
pub open spec fn table_branches_of(rows: Seq<ManifestRowModel>) -> Seq<Option<Seq<char>>> {
    Seq::new(rows.len(), |i: int| rows[i].table_branch)
}

/// The row counts of a list of rows.
pub open spec fn row_counts_of(rows: Seq<ManifestRowModel>) -> Seq<Option<u64>> {
    Seq::new(rows.len(), |i: int| rows[i].row_count)
}

/// The columns of a list of rows.
pub open spec fn columns_of(rows: Seq<ManifestRowModel>) -> Seq<BatchColumnModel> {
    manifest_columns(
        object_ids_of(rows),
        object_types_of(rows),
        locations_of(rows),
        metadata_of(rows),
        table_keys_of(rows),
        table_versions_of(rows),
        table_branches_of(rows),
        row_counts_of(rows),
    )
}

/// Whether the text of a list of rows is short enough for the store.
pub open spec fn rows_fit(rows: Seq<ManifestRowModel>) -> bool {
    &&& fits_offsets(present(object_ids_of(rows)))
    &&& fits_offsets(present(object_types_of(rows)))
    &&& fits_offsets(locations_of(rows))
    &&& fits_offsets(metadata_of(rows))
    &&& fits_offsets(present(table_keys_of(rows)))
    &&& fits_offsets(table_branches_of(rows))
}

/// Whether a batch holds a list of rows.
pub open spec fn holds_rows(batch: ManifestBatch, rows: Seq<ManifestRowModel>) -> bool {
    holds(batch, manifest_fields(), columns_of(rows))
}

/// The columns of a list of rows, apart.
struct RowColumns {
    object_ids: Vec<String>,
    object_types: Vec<String>,
    locations: Vec<Option<String>>,
    metadata: Vec<Option<String>>,
    table_keys: Vec<String>,
    table_versions: Vec<Option<u64>>,
    table_branches: Vec<Option<String>>,
    row_counts: Vec<Option<u64>>,
}

/// Takes a list of rows apart into its columns.
fn split_rows(rows: &Vec<ManifestRow>) -> (columns: RowColumns)
    ensures
        views(columns.object_ids@) == object_ids_of(views(rows@)),
        views(columns.object_types@) == object_types_of(views(rows@)),
        texts(columns.locations@) == locations_of(views(rows@)),
        texts(columns.metadata@) == metadata_of(views(rows@)),
        views(columns.table_keys@) == table_keys_of(views(rows@)),
        columns.table_versions@ == table_versions_of(views(rows@)),
        texts(columns.table_branches@) == table_branches_of(views(rows@)),
        columns.row_counts@ == row_counts_of(views(rows@)),
{
    let ghost models = views(rows@);
    let mut object_ids: Vec<String> = Vec::new();
    let mut object_types: Vec<String> = Vec::new();
    let mut locations: Vec<Option<String>> = Vec::new();
    let mut metadata: Vec<Option<String>> = Vec::new();
    let mut table_keys: Vec<String> = Vec::new();
    let mut table_versions: Vec<Option<u64>> = Vec::new();
    let mut table_branches: Vec<Option<String>> = Vec::new();
    let mut row_counts: Vec<Option<u64>> = Vec::new();
    let mut i: usize = 0;
    while i < rows.len()
        invariant
            i <= rows.len(),
            models == views(rows@),
            object_ids.len() == i,
            object_types.len() == i,
            locations.len() == i,
            metadata.len() == i,
            table_keys.len() == i,
            table_versions.len() == i,
            table_branches.len() == i,
            row_counts.len() == i,
            forall|j: int| 0 <= j < i ==> (#[trigger] object_ids@[j])@ == models[j].object_id,
            forall|j: int| 0 <= j < i ==> (#[trigger] object_types@[j])@ == models[j].object_type,
            forall|j: int| 0 <= j < i ==> opt_view(#[trigger] locations@[j]) == models[j].location,
            forall|j: int| 0 <= j < i ==> opt_view(#[trigger] metadata@[j]) == models[j].metadata,
            forall|j: int| 0 <= j < i ==> (#[trigger] table_keys@[j])@ == models[j].table_key,
            forall|j: int| 0 <= j < i ==> #[trigger] table_versions@[j] == models[j].table_version,
            forall|j: int|
                0 <= j < i ==> opt_view(#[trigger] table_branches@[j]) == models[j].table_branch,
            forall|j: int| 0 <= j < i ==> #[trigger] row_counts@[j] == models[j].row_count,
        decreases rows.len() - i,
    {
        let row: &ManifestRow = &rows[i];
        assert(models[i as int] == row@);
        object_ids.push(row.object_id.clone());
        object_types.push(row.object_type.clone());
        locations.push(replicate_opt(&row.location));
        metadata.push(replicate_opt(&row.metadata));
        table_keys.push(row.table_key.clone());
        table_versions.push(row.table_version);
        table_branches.push(replicate_opt(&row.table_branch));
        row_counts.push(row.row_count);
        i += 1;
    }
    proof {
        assert(views(object_ids@) =~= object_ids_of(models));
        assert(views(object_types@) =~= object_types_of(models));
        assert(texts(locations@) =~= locations_of(models));
        assert(texts(metadata@) =~= metadata_of(models));
        assert(views(table_keys@) =~= table_keys_of(models));
        assert(table_versions@ =~= table_versions_of(models));
        assert(texts(table_branches@) =~= table_branches_of(models));
        assert(row_counts@ =~= row_counts_of(models));
    }
    RowColumns {
        object_ids,
        object_types,
        locations,
        metadata,
        table_keys,
        table_versions,
        table_branches,
        row_counts,
    }
}

/// Whether the text of a list of rows is short enough for the store.
pub fn is_storable(rows: &Vec<ManifestRow>) -> (answer: bool)
    ensures
        answer == rows_fit(views(rows@)),
{
    let columns: RowColumns = split_rows(rows);
    is_within_offsets(&all_present(columns.object_ids)) && is_within_offsets(
        &all_present(columns.object_types),
    ) && is_within_offsets(&columns.locations) && is_within_offsets(&columns.metadata)
        && is_within_offsets(&all_present(columns.table_keys)) && is_within_offsets(
        &columns.table_branches,
    )
}

/// Builds a batch of manifest rows.
pub fn rows_to_batch(rows: &Vec<ManifestRow>) -> (result: Result<ManifestBatch, OmniError>)
    requires
        rows_fit(views(rows@)),
    ensures
        result is Ok,
        holds_rows(result->Ok_0, views(rows@)),
{
    let columns: RowColumns = split_rows(rows);
    assert(equally_long(columns_of(views(rows@))));
    manifest_rows_batch(
        columns.object_ids,
        columns.object_types,
        columns.locations,
        columns.metadata,
        columns.table_keys,
        columns.table_versions,
        columns.table_branches,
        columns.row_counts,
    )
}

/// Reading a batch gives back the rows that it was built from.
pub proof fn lemma_rows_read_back(batch: ManifestBatch, rows: Seq<ManifestRowModel>)
    requires
        holds_cells(batch, manifest_fields(), columns_of(rows)),
    ensures
        first_defect(state_findings(batch, true)) is None,
        state_rows(batch, true) == rows,
{
    let fields = manifest_fields();
    let columns = columns_of(rows);
    assert(holds_column(batch, fields[0].name, columns[0]));
    assert(holds_column(batch, fields[1].name, columns[1]));
    assert(holds_column(batch, fields[2].name, columns[2]));
    assert(holds_column(batch, fields[3].name, columns[3]));
    assert(holds_column(batch, fields[5].name, columns[5]));
    assert(holds_column(batch, fields[6].name, columns[6]));
    assert(holds_column(batch, fields[7].name, columns[7]));
    assert(holds_column(batch, fields[8].name, columns[8]));
    assert(batch_rows(batch) == rows.len());
    let findings = state_findings(batch, true);
    assert forall|j: int| 0 <= j < findings.len() implies findings[j] is None by {}
    crate::shape::defect::lemma_no_defect(findings);
    assert forall|i: int| 0 <= i < rows.len() implies state_row(batch, true, i) == rows[i] by {
        assert(utf8_columns(batch)["object_id"@][i] == Some(rows[i].object_id));
        assert(utf8_columns(batch)["object_type"@][i] == Some(rows[i].object_type));
        assert(utf8_columns(batch)["table_key"@][i] == Some(rows[i].table_key));
    }
    assert(state_rows(batch, true) =~= rows);
}

} // verus!
