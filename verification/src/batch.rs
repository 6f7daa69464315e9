//! Record batches: the columns of manifest rows as the table store reads and writes
//! them.

use std::collections::HashMap;
use std::sync::Arc;

use arrow_array::{new_null_array, ArrayRef, RecordBatch, StringArray, UInt64Array};
use arrow_schema::{DataType, Field, Schema};
use vstd::prelude::*;
use vstd::utf8::encode_utf8;

use crate::error::{internal, OmniError, OmniErrorModel};
use crate::text::{cat3, decimal, decimal_text};
use crate::value::{opt_view, views};

verus! {

/// A record batch of `arrow_array`. What it holds is named by [`column_names`],
/// [`utf8_columns`], [`uint64_columns`], [`batch_rows`] and [`batch_fields`].
#[verifier::external_body]
pub struct ManifestBatch {
    pub batch: RecordBatch,
}

/// A schema of `arrow_schema`. What it holds is named by [`schema_fields`].
#[verifier::external_type_specification]
#[verifier::external_body]
pub struct ExSchema(arrow_schema::Schema);

/// What the cells of a column are.
#[derive(Clone, Copy, Debug, PartialEq, Eq, Structural)]
pub enum BatchKind {
    /// Text.
    Utf8,
    /// Numbers.
    UInt64,
    /// Lists of text.
    Utf8List,
}

/// A column of a schema.
#[derive(Debug, PartialEq, Eq)]
pub struct BatchField {
    pub name: String,
    pub kind: BatchKind,
    /// Whether cells may be empty.
    pub nullable: bool,
    /// A key with its value that the table store reads from the schema.
    pub metadata: Option<(String, String)>,
}

/// What a [`BatchField`] stands for.
pub struct BatchFieldModel {
    pub name: Seq<char>,
    pub kind: BatchKind,
    pub nullable: bool,
    pub metadata: Option<(Seq<char>, Seq<char>)>,
}

impl View for BatchField {
    type V = BatchFieldModel;

    open spec fn view(&self) -> BatchFieldModel {
        BatchFieldModel {
            name: self.name@,
            kind: self.kind,
            nullable: self.nullable,
            metadata: match self.metadata {
                Some(pair) => Some((pair.0@, pair.1@)),
                None => None,
            },
        }
    }
}

/// The cells of a column.
#[derive(Debug, PartialEq, Eq)]
pub enum BatchColumn {
    Utf8(Vec<Option<String>>),
    UInt64(Vec<Option<u64>>),
    /// So many empty cells of a column of lists.
    EmptyLists(usize),
}

/// What a [`BatchColumn`] stands for.
pub enum BatchColumnModel {
    Utf8(Seq<Option<Seq<char>>>),
    UInt64(Seq<Option<u64>>),
    EmptyLists(nat),
}

/// What cells of text stand for.
pub open spec fn texts(cells: Seq<Option<String>>) -> Seq<Option<Seq<char>>> {
    Seq::new(cells.len(), |i: int| opt_view(cells[i]))
}

impl View for BatchColumn {
    type V = BatchColumnModel;

    open spec fn view(&self) -> BatchColumnModel {
        match *self {
            BatchColumn::Utf8(cells) => BatchColumnModel::Utf8(texts(cells@)),
            BatchColumn::UInt64(cells) => BatchColumnModel::UInt64(cells@),
            BatchColumn::EmptyLists(count) => BatchColumnModel::EmptyLists(count as nat),
        }
    }
}

impl BatchColumnModel {
    /// The number of cells.
    pub open spec fn count(self) -> nat {
        match self {
            BatchColumnModel::Utf8(cells) => cells.len(),
            BatchColumnModel::UInt64(cells) => cells.len(),
            BatchColumnModel::EmptyLists(count) => count,
        }
    }

    /// What the cells are.
    pub open spec fn kind(self) -> BatchKind {
        match self {
            BatchColumnModel::Utf8(_) => BatchKind::Utf8,
            BatchColumnModel::UInt64(_) => BatchKind::UInt64,
            BatchColumnModel::EmptyLists(_) => BatchKind::Utf8List,
        }
    }

    /// Whether no cell is empty.
    pub open spec fn full(self) -> bool {
        match self {
            BatchColumnModel::Utf8(cells) => forall|i: int|
                0 <= i < cells.len() ==> (#[trigger] cells[i]) is Some,
            BatchColumnModel::UInt64(cells) => forall|i: int|
                0 <= i < cells.len() ==> (#[trigger] cells[i]) is Some,
            BatchColumnModel::EmptyLists(count) => count == 0,
        }
    }
}

/// The number of bytes in cells of text.
pub open spec fn text_weight(cells: Seq<Option<Seq<char>>>) -> nat
    decreases cells.len(),
{
    if cells.len() == 0 {
        0
    } else {
        text_weight(cells.drop_last()) + match cells.last() {
            Some(text) => encode_utf8(text).len(),
            None => 0,
        }
    }
}

/// Whether a column of text is short enough for the store's 32-bit offsets.
pub open spec fn fits_offsets(cells: Seq<Option<Seq<char>>>) -> bool {
    text_weight(cells) <= i32::MAX
}

/// The first cells weigh no more than all of them.
proof fn lemma_weight_grows(cells: Seq<Option<Seq<char>>>, n: int)
    requires
        0 <= n <= cells.len(),
    ensures
        text_weight(cells.subrange(0, n)) <= text_weight(cells),
    decreases cells.len(),
{
    if n < cells.len() {
        lemma_weight_grows(cells.drop_last(), n);
        assert(cells.drop_last().subrange(0, n) =~= cells.subrange(0, n));
    } else {
        assert(cells.subrange(0, n) =~= cells);
    }
}

/// Whether a column of text is short enough for the store's 32-bit offsets.
pub fn is_within_offsets(cells: &Vec<Option<String>>) -> (answer: bool)
    ensures
        answer == fits_offsets(texts(cells@)),
{
    let ghost all = texts(cells@);
    let limit: u64 = i32::MAX as u64;
    let mut total: u64 = 0;
    let mut i: usize = 0;
    assert(all.subrange(0, 0) =~= Seq::empty());
    while i < cells.len()
        invariant
            i <= cells.len(),
            all == texts(cells@),
            limit == i32::MAX,
            total <= limit,
            total == text_weight(all.subrange(0, i as int)),
        decreases cells.len() - i,
    {
        proof {
            lemma_weight_grows(all, i + 1);
            assert(all.subrange(0, i + 1).drop_last() =~= all.subrange(0, i as int));
            assert(all.subrange(0, i + 1).last() == opt_view(cells@[i as int]));
        }
        if let Some(text) = &cells[i] {
            let bytes: u64 = text.as_str().as_bytes().len() as u64;
            if bytes > limit - total {
                return false;
            }
            total = total + bytes;
        }
        i += 1;
    }
    assert(all.subrange(0, all.len() as int) =~= all);
    true
}

/// The names of the columns of a batch.
pub uninterp spec fn column_names(batch: ManifestBatch) -> Set<Seq<char>>;

/// The columns of text of a batch, by name. Where a name occurs twice, the first
/// column with it counts.
pub uninterp spec fn utf8_columns(batch: ManifestBatch) -> Map<Seq<char>, Seq<Option<Seq<char>>>>;

/// The columns of numbers of a batch, by name. Where a name occurs twice, the first
/// column with it counts.
pub uninterp spec fn uint64_columns(batch: ManifestBatch) -> Map<Seq<char>, Seq<Option<u64>>>;

/// The number of rows of a batch.
pub uninterp spec fn batch_rows(batch: ManifestBatch) -> nat;

/// The columns that the schema of a batch describes.
pub uninterp spec fn batch_fields(batch: ManifestBatch) -> Seq<BatchFieldModel>;

/// The columns that a schema describes.
pub uninterp spec fn schema_fields(schema: Schema) -> Seq<BatchFieldModel>;

/// Calls `RecordBatch::num_rows`.
#[verifier::external_body]
pub(crate) fn row_total(batch: &ManifestBatch) -> (total: usize)
    ensures
        total == batch_rows(*batch),
{
    batch.batch.num_rows()
}

/// Calls `RecordBatch::column_by_name` and asks for the column as a `StringArray`.
/// The outer option is empty where there is no such column, the inner one where it
/// holds something other than text; otherwise the cells are handed out in order,
/// one for every row.
#[verifier::external_body]
fn read_utf8_column(batch: &ManifestBatch, name: &str) -> (column: Option<
    Option<Vec<Option<String>>>,
>)
    ensures
        column is Some <==> column_names(*batch).contains(name@),
        column is Some && column->0 is Some <==> utf8_columns(*batch).contains_key(name@),
        column is Some && column->0 is Some ==> texts((column->0)->0@) == utf8_columns(
            *batch,
        )[name@] && (column->0)->0@.len() == batch_rows(*batch),
{
    let column = batch.batch.column_by_name(name)?;
    let array = column.as_any().downcast_ref::<StringArray>();
    Some(array.map(|a| a.iter().map(|cell| cell.map(str::to_owned)).collect()))
}

/// Calls `RecordBatch::column_by_name` and asks for the column as a `UInt64Array`.
/// The outer option is empty where there is no such column, the inner one where it
/// holds something other than 64-bit numbers; otherwise the cells are handed out in
/// order, one for every row.
#[verifier::external_body]
fn read_uint64_column(batch: &ManifestBatch, name: &str) -> (column: Option<
    Option<Vec<Option<u64>>>,
>)
    ensures
        column is Some <==> column_names(*batch).contains(name@),
        column is Some && column->0 is Some <==> uint64_columns(*batch).contains_key(name@),
        column is Some && column->0 is Some ==> (column->0)->0@ == uint64_columns(*batch)[name@]
            && (column->0)->0@.len() == batch_rows(*batch),
{
    let column = batch.batch.column_by_name(name)?;
    let array = column.as_any().downcast_ref::<UInt64Array>();
    Some(array.map(|a| a.iter().collect()))
}

/// Calls `Schema::new` on fields made by `Field::new` and `Field::with_metadata`,
/// in order. Lists are lists of nullable text, as `Field::new_list_field` makes
/// them.
#[verifier::external_body]
fn new_schema(fields: &Vec<BatchField>) -> (schema: Arc<Schema>)
    ensures
        schema_fields(*schema) == views(fields@),
{
    let list = DataType::List(Arc::new(Field::new_list_field(DataType::Utf8, true)));
    let to_type = |kind: BatchKind| match kind {
        BatchKind::Utf8 => DataType::Utf8,
        BatchKind::UInt64 => DataType::UInt64,
        BatchKind::Utf8List => list.clone(),
    };
    let to_field = |field: &BatchField| {
        Field::new(field.name.as_str(), to_type(field.kind), field.nullable)
            .with_metadata(field.metadata.clone().into_iter().collect::<HashMap<_, _>>())
    };
    Arc::new(Schema::new(fields.iter().map(to_field).collect::<Vec<Field>>()))
}

/// Whether columns can be put under fields: as many of them, all of the same
/// length, each of its field's kind, and full where the field is not nullable.
pub open spec fn conforms(
    fields: Seq<BatchFieldModel>,
    columns: Seq<BatchColumnModel>,
) -> bool {
    &&& columns.len() == fields.len()
    &&& columns.len() > 0
    &&& forall|i: int|
        0 <= i < columns.len() ==> {
            &&& (#[trigger] columns[i]).count() == columns[0].count()
            &&& columns[i].kind() == fields[i].kind
            &&& fields[i].nullable || columns[i].full()
        }
}

/// Whether a batch holds one column under its name.
pub open spec fn holds_column(
    batch: ManifestBatch,
    name: Seq<char>,
    column: BatchColumnModel,
) -> bool {
    &&& column_names(batch).contains(name)
    &&& match column {
        BatchColumnModel::Utf8(cells) => utf8_columns(batch).contains_key(name)
            && utf8_columns(batch)[name] == cells,
        BatchColumnModel::UInt64(cells) => uint64_columns(batch).contains_key(name)
            && uint64_columns(batch)[name] == cells,
        BatchColumnModel::EmptyLists(_) => true,
    }
}

/// Whether a batch holds columns under the names of their fields.
pub open spec fn holds_cells(
    batch: ManifestBatch,
    fields: Seq<BatchFieldModel>,
    columns: Seq<BatchColumnModel>,
) -> bool {
    &&& batch_rows(batch) == columns[0].count()
    &&& forall|i: int|
        0 <= i < columns.len() ==> holds_column(batch, fields[i].name, #[trigger] columns[i])
}

/// Whether a batch carries fields as its schema, and holds columns under their names.
pub open spec fn holds(
    batch: ManifestBatch,
    fields: Seq<BatchFieldModel>,
    columns: Seq<BatchColumnModel>,
) -> bool {
    batch_fields(batch) == fields && holds_cells(batch, fields, columns)
}

/// Whether no two fields share a name.
pub open spec fn names_distinct(fields: Seq<BatchFieldModel>) -> bool {
    forall|i: int, j: int|
        0 <= i < j < fields.len() ==> (#[trigger] fields[i]).name != (#[trigger] fields[j]).name
}

/// Whether columns are short enough for the store: every column of text fits 32-bit
/// offsets, and no column of empty lists is longer than the first column, which
/// holds its cells in memory.
pub open spec fn columns_fit(columns: Seq<BatchColumnModel>) -> bool {
    forall|i: int|
        0 <= i < columns.len() ==> match #[trigger] columns[i] {
            BatchColumnModel::Utf8(cells) => fits_offsets(cells),
            BatchColumnModel::UInt64(_) => true,
            BatchColumnModel::EmptyLists(count) => !(columns[0] is EmptyLists) && count
                <= columns[0].count(),
        }
}

/// Calls `RecordBatch::try_new` on arrays made by `StringArray::from`,
/// `UInt64Array::from` and `new_null_array`. It succeeds exactly where the columns
/// conform to the schema; the batch then carries the schema that was handed in, and
/// holds the columns under the names of their fields. The text of a failure is the store's own. A column of text whose bytes
/// do not fit 32-bit offsets would panic, and so would a column of more empty lists
/// than memory holds, so both are left out.
#[verifier::external_body]
pub(crate) fn new_batch(schema: Arc<Schema>, columns: Vec<BatchColumn>) -> (result: Result<
    ManifestBatch,
    String,
>)
    requires
        columns_fit(views(columns@)),
    ensures
        result is Ok <==> conforms(schema_fields(*schema), views(columns@)),
        result is Ok ==> batch_fields(result->Ok_0) == schema_fields(*schema),
        result is Ok && names_distinct(schema_fields(*schema)) ==> holds_cells(
            result->Ok_0,
            schema_fields(*schema),
            views(columns@),
        ),
{
    let list = DataType::List(Arc::new(Field::new_list_field(DataType::Utf8, true)));
    let to_array = |column: BatchColumn| -> ArrayRef {
        match column {
            BatchColumn::Utf8(cells) => Arc::new(StringArray::from(cells)),
            BatchColumn::UInt64(cells) => Arc::new(UInt64Array::from(cells)),
            BatchColumn::EmptyLists(count) => new_null_array(&list, count),
        }
    };
    let arrays: Vec<ArrayRef> = columns.into_iter().map(to_array).collect();
    let batch = RecordBatch::try_new(schema, arrays).map_err(|error| error.to_string())?;
    Ok(ManifestBatch { batch })
}

/// The error for a column that is not there.
pub open spec fn missing_column(name: Seq<char>) -> OmniErrorModel {
    internal("manifest batch missing '"@ + name + "' column"@)
}

/// Why a column of text cannot be had from a batch, if so.
pub open spec fn utf8_fault(batch: ManifestBatch, name: Seq<char>) -> Option<OmniErrorModel> {
    if !column_names(batch).contains(name) {
        Some(missing_column(name))
    } else if !utf8_columns(batch).contains_key(name) {
        Some(internal("manifest column '"@ + name + "' is not Utf8"@))
    } else {
        None
    }
}

/// Why a column of numbers cannot be had from a batch, if so.
pub open spec fn uint64_fault(batch: ManifestBatch, name: Seq<char>) -> Option<OmniErrorModel> {
    if !column_names(batch).contains(name) {
        Some(missing_column(name))
    } else if !uint64_columns(batch).contains_key(name) {
        Some(internal("manifest column '"@ + name + "' is not UInt64"@))
    } else {
        None
    }
}

/// The error for a column that is not there.
fn missing_column_error(name: &str) -> (error: OmniError)
    ensures
        error@ == missing_column(name@),
{
    let message: String = cat3("manifest batch missing '", name, "' column");
    OmniError::manifest_internal(message.as_str())
}

/// A column of text of a batch.
pub fn string_column(batch: &ManifestBatch, name: &str) -> (result: Result<
    Vec<Option<String>>,
    OmniError,
>)
    ensures
        match utf8_fault(*batch, name@) {
            Some(error) => result is Err && result->Err_0@ == error,
            None => {
                &&& result is Ok
                &&& texts(result->Ok_0@) == utf8_columns(*batch)[name@]
                &&& result->Ok_0@.len() == batch_rows(*batch)
            },
        },
{
    match read_utf8_column(batch, name) {
        None => Err(missing_column_error(name)),
        Some(None) => {
            let message: String = cat3("manifest column '", name, "' is not Utf8");
            Err(OmniError::manifest_internal(message.as_str()))
        },
        Some(Some(cells)) => Ok(cells),
    }
}

/// A column of numbers of a batch.
pub fn u64_column(batch: &ManifestBatch, name: &str) -> (result: Result<
    Vec<Option<u64>>,
    OmniError,
>)
    ensures
        match uint64_fault(*batch, name@) {
            Some(error) => result is Err && result->Err_0@ == error,
            None => {
                &&& result is Ok
                &&& result->Ok_0@ == uint64_columns(*batch)[name@]
                &&& result->Ok_0@.len() == batch_rows(*batch)
            },
        },
{
    match read_uint64_column(batch, name) {
        None => Err(missing_column_error(name)),
        Some(None) => {
            let message: String = cat3("manifest column '", name, "' is not UInt64");
            Err(OmniError::manifest_internal(message.as_str()))
        },
        Some(Some(cells)) => Ok(cells),
    }
}

/// The error for an empty cell.
pub open spec fn null_cell(name: Seq<char>, row: nat) -> OmniErrorModel {
    internal("manifest column '"@ + name + "' is null at row "@ + decimal(row))
}

/// The number in a cell that has to hold one. `row` and `name` say in the error
/// where the cell is.
pub fn required_u64(cell: Option<u64>, row: usize, name: &str) -> (result: Result<u64, OmniError>)
    ensures
        match cell {
            Some(number) => result == Ok::<u64, OmniError>(number),
            None => result is Err && result->Err_0@ == null_cell(name@, row as nat),
        },
{
    match cell {
        Some(number) => Ok(number),
        None => {
            let digits: String = decimal_text(row as u64);
            let message: String = crate::text::cat4(
                "manifest column '",
                name,
                "' is null at row ",
                digits.as_str(),
            );
            Err(OmniError::manifest_internal(message.as_str()))
        },
    }
}

/// The key that marks the column that rows are merged by.
pub const UNENFORCED_PRIMARY_KEY: &'static str = "lance-schema:unenforced-primary-key";

/// A column of the manifest that carries no mark.
pub open spec fn plain_field(name: Seq<char>, kind: BatchKind, nullable: bool) -> BatchFieldModel {
    BatchFieldModel { name, kind, nullable, metadata: None }
}

/// The columns of the manifest. Rows are merged by `object_id`: with its mark, the
/// store refuses one of two concurrent writers of the same row.
pub open spec fn manifest_fields() -> Seq<BatchFieldModel> {
    seq![
        BatchFieldModel {
            name: "object_id"@,
            kind: BatchKind::Utf8,
            nullable: false,
            metadata: Some((UNENFORCED_PRIMARY_KEY@, "true"@)),
        },
        plain_field("object_type"@, BatchKind::Utf8, false),
        plain_field("location"@, BatchKind::Utf8, true),
        plain_field("metadata"@, BatchKind::Utf8, true),
        plain_field("base_objects"@, BatchKind::Utf8List, true),
        plain_field("table_key"@, BatchKind::Utf8, false),
        plain_field("table_version"@, BatchKind::UInt64, true),
        plain_field("table_branch"@, BatchKind::Utf8, true),
        plain_field("row_count"@, BatchKind::UInt64, true),
    ]
}

/// A column of the manifest that carries no mark.
fn build_field(name: &str, kind: BatchKind, nullable: bool) -> (field: BatchField)
    ensures
        field@ == plain_field(name@, kind, nullable),
{
    BatchField { name: name.to_owned(), kind, nullable, metadata: None }
}

/// The schema of the manifest.
pub fn manifest_schema() -> (schema: Arc<Schema>)
    ensures
        schema_fields(*schema) == manifest_fields(),
{
    let mut fields: Vec<BatchField> = Vec::new();
    fields.push(
        BatchField {
            name: "object_id".to_owned(),
            kind: BatchKind::Utf8,
            nullable: false,
            metadata: Some((UNENFORCED_PRIMARY_KEY.to_owned(), "true".to_owned())),
        },
    );
    fields.push(build_field("object_type", BatchKind::Utf8, false));
    fields.push(build_field("location", BatchKind::Utf8, true));
    fields.push(build_field("metadata", BatchKind::Utf8, true));
    fields.push(build_field("base_objects", BatchKind::Utf8List, true));
    fields.push(build_field("table_key", BatchKind::Utf8, false));
    fields.push(build_field("table_version", BatchKind::UInt64, true));
    fields.push(build_field("table_branch", BatchKind::Utf8, true));
    fields.push(build_field("row_count", BatchKind::UInt64, true));
    assert(views(fields@) =~= manifest_fields());
    new_schema(&fields)
}

/// No two columns of the manifest share a name.
pub proof fn lemma_manifest_names()
    ensures
        names_distinct(manifest_fields()),
{
    reveal_strlit("object_id");
    reveal_strlit("object_type");
    reveal_strlit("location");
    reveal_strlit("metadata");
    reveal_strlit("base_objects");
    reveal_strlit("table_key");
    reveal_strlit("table_version");
    reveal_strlit("table_branch");
    reveal_strlit("row_count");
    let fields = manifest_fields();
    assert(fields[0].name[0] == 'o' && fields[0].name.len() == 9);
    assert(fields[1].name[0] == 'o' && fields[1].name.len() == 11);
    assert(fields[2].name[0] == 'l');
    assert(fields[3].name[0] == 'm');
    assert(fields[4].name[0] == 'b');
    assert(fields[5].name[0] == 't' && fields[5].name.len() == 9);
    assert(fields[6].name[0] == 't' && fields[6].name.len() == 13);
    assert(fields[7].name[0] == 't' && fields[7].name.len() == 12);
    assert(fields[8].name[0] == 'r');
}

} // verus!
