//! The rows of the manifest: batches, selected state and lineage.

use std::sync::Arc;

use arrow_array::{Array, RecordBatch, StringArray, UInt64Array};
use arrow_schema::{DataType, Field, Schema};
use omnigraph::batch::{
    is_within_offsets, manifest_schema, required_u64, string_column, u64_column, ManifestBatch,
};
use omnigraph::lineage::{
    decode_graph_commit_row, graph_commit_metadata, graph_head_metadata, graph_head_object_id,
    graph_lineage_row_parts, head_lineage_row, head_of, read_graph_lineage, value_of, GraphLineage,
    GraphLineageRow, LineageMetadata, OBJECT_TYPE_GRAPH_COMMIT, OBJECT_TYPE_TABLE,
    OBJECT_TYPE_TABLE_TOMBSTONE, OBJECT_TYPE_TABLE_VERSION,
};
use omnigraph::rows::{
    is_storable, manifest_rows_batch, read_lineage_rows, read_state_rows, rows_to_batch,
    ManifestRow,
};
use omnigraph::sidecar::TableVersionMetadata;
use omnigraph::snapshot::SubTableEntry;
use omnigraph::state::{
    assemble_manifest_state, entries_to_batch, finish_scan, read_manifest_state, scan_rows,
    ManifestScan, RowMetadata,
};

fn metadata(version: u64) -> TableVersionMetadata {
    TableVersionMetadata {
        manifest_path: format!("_versions/{version}.manifest"),
        manifest_size: Some(10),
        e_tag: None,
        naming_scheme: None,
    }
}

fn entry(table_key: &str, table_version: u64) -> SubTableEntry {
    SubTableEntry {
        table_key: table_key.to_string(),
        table_path: format!("data/{table_key}"),
        table_version,
        table_branch: None,
        row_count: table_version * 100,
        version_metadata: metadata(table_version),
    }
}

fn row(object_type: &str, table_key: &str) -> ManifestRow {
    ManifestRow {
        object_id: format!("{object_type}/{table_key}"),
        object_type: object_type.to_string(),
        location: None,
        metadata: None,
        table_key: table_key.to_string(),
        table_version: None,
        table_branch: None,
        row_count: None,
    }
}

fn commit(id: &str, version: u64, created_at: i64) -> GraphLineageRow {
    GraphLineageRow {
        graph_commit_id: id.to_string(),
        manifest_branch: None,
        manifest_version: version,
        parent_commit_id: None,
        merged_parent_commit_id: None,
        actor_id: Some("act".to_string()),
        created_at,
    }
}

#[test]
fn manifest_column_helpers_return_error_for_bad_schema() {
    let batch = RecordBatch::try_new(
        Arc::new(Schema::new(vec![Field::new(
            "table_key",
            DataType::UInt64,
            false,
        )])),
        vec![Arc::new(UInt64Array::from(vec![1_u64]))],
    )
    .unwrap();

    let err = string_column(&ManifestBatch { batch }, "table_key").unwrap_err();
    assert!(err.to_text().contains("table_key"));
}

#[test]
fn columns_are_read_cell_by_cell() {
    let batch = ManifestBatch {
        batch: RecordBatch::try_new(
            Arc::new(Schema::new(vec![
                Field::new("name", DataType::Utf8, true),
                Field::new("count", DataType::UInt64, true),
            ])),
            vec![
                Arc::new(StringArray::from(vec![Some("a"), None, Some("c")])),
                Arc::new(UInt64Array::from(vec![None, Some(2_u64), Some(3_u64)])),
            ],
        )
        .unwrap(),
    };
    assert_eq!(
        string_column(&batch, "name").unwrap(),
        vec![Some("a".to_string()), None, Some("c".to_string())]
    );
    assert_eq!(
        u64_column(&batch, "count").unwrap(),
        vec![None, Some(2), Some(3)]
    );
    assert!(u64_column(&batch, "name").is_err());
    assert!(string_column(&batch, "missing").is_err());
}

#[test]
fn a_missing_number_names_its_row_and_column() {
    assert_eq!(required_u64(Some(4), 0, "row_count"), Ok(4));
    let error = required_u64(None, 3, "row_count").unwrap_err();
    assert!(error.to_text().contains("row_count"));
    assert!(error.to_text().contains('3'));
}

#[test]
fn the_schema_marks_its_join_key() {
    let schema = manifest_schema();
    assert_eq!(schema.fields().len(), 9);
    let key = schema.field(0);
    assert_eq!(key.name(), "object_id");
    assert!(!key.is_nullable());
    assert_eq!(
        key.metadata().get("lance-schema:unenforced-primary-key"),
        Some(&"true".to_string())
    );
    let lists = schema.field(4);
    assert_eq!(lists.name(), "base_objects");
    assert_eq!(
        lists.data_type(),
        &DataType::List(Arc::new(Field::new("item", DataType::Utf8, true)))
    );
    assert_eq!(schema.field(8).name(), "row_count");
    assert!(schema.field(8).metadata().is_empty());
}

#[test]
fn rows_are_read_back_as_they_were_written() {
    let rows = vec![
        ManifestRow {
            location: Some("nodes/1".to_string()),
            ..row(OBJECT_TYPE_TABLE, "node:Person")
        },
        ManifestRow {
            metadata: Some("{}".to_string()),
            table_version: Some(u64::MAX),
            table_branch: Some("feature".to_string()),
            row_count: Some(0),
            ..row(OBJECT_TYPE_TABLE_VERSION, "node:Person")
        },
    ];
    assert!(is_storable(&rows));
    let batch = rows_to_batch(&rows).unwrap();
    assert_eq!(batch.batch.num_columns(), 9);
    assert_eq!(batch.batch.num_rows(), 2);
    assert_eq!(batch.batch.column(4).null_count(), 2);
    assert_eq!(read_state_rows(&batch, true).unwrap(), rows);
    let without_ids = read_state_rows(&batch, false).unwrap();
    assert_eq!(without_ids[0].object_id, "");
    assert_eq!(without_ids[1].table_version, Some(u64::MAX));
    assert!(is_within_offsets(&vec![Some("é".to_string()), None]));
    let lineage = read_lineage_rows(&batch).unwrap();
    assert_eq!(lineage[1].object_id, rows[1].object_id);
    assert_eq!(lineage[1].metadata, Some("{}".to_string()));
}

#[test]
fn a_batch_carries_the_schema_of_the_manifest() {
    let batch = rows_to_batch(&vec![row(OBJECT_TYPE_TABLE, "node:Person")]).unwrap();
    let schema = batch.batch.schema();
    assert_eq!(schema, manifest_schema());
    assert_eq!(
        schema.field(0).metadata().get("lance-schema:unenforced-primary-key"),
        Some(&"true".to_string())
    );
    let empty = rows_to_batch(&Vec::new()).unwrap();
    assert_eq!(empty.batch.schema(), manifest_schema());
}

#[test]
fn a_batch_is_built_from_columns() {
    let batch = manifest_rows_batch(
        vec!["id".to_string()],
        vec![OBJECT_TYPE_TABLE_TOMBSTONE.to_string()],
        vec![None],
        vec![None],
        vec!["node:Person".to_string()],
        vec![Some(4)],
        vec![None],
        vec![None],
    )
    .unwrap();
    let rows = read_state_rows(&batch, true).unwrap();
    assert_eq!(
        rows,
        vec![ManifestRow {
            object_id: "id".to_string(),
            table_version: Some(4),
            ..row(OBJECT_TYPE_TABLE_TOMBSTONE, "node:Person")
        }]
    );
}

#[test]
fn a_batch_without_a_column_cannot_be_read() {
    let batch = ManifestBatch {
        batch: RecordBatch::try_new(
            Arc::new(Schema::new(vec![Field::new("object_type", DataType::Utf8, false)])),
            vec![Arc::new(StringArray::from(vec!["table"]))],
        )
        .unwrap(),
    };
    let error = read_state_rows(&batch, false).unwrap_err();
    assert!(error.to_text().contains("location"));
    assert!(read_lineage_rows(&batch).is_err());
}

#[test]
fn the_latest_version_of_every_table_is_selected() {
    let state = assemble_manifest_state(
        12,
        &vec![
            entry("node:Person", 2),
            entry("edge:Knows", 7),
            entry("node:Person", 5),
            entry("node:Person", 3),
        ],
        &Vec::new(),
    );
    assert_eq!(state.version, 12);
    assert_eq!(
        state.entries,
        vec![entry("edge:Knows", 7), entry("node:Person", 5)]
    );
}

#[test]
fn the_order_of_entries_does_not_matter() {
    let listed = || {
        vec![
            entry("node:Person", 2),
            entry("node:Company", 4),
            entry("node:Person", 5),
            entry("edge:Knows", 1),
        ]
    };
    let removed = vec![("edge:Knows".to_string(), 1), ("node:Person".to_string(), 3)];
    let forward = assemble_manifest_state(1, &listed(), &removed);
    let mut entries = listed();
    entries.reverse();
    let swapped = vec![
        ("node:Person".to_string(), 3),
        ("edge:Knows".to_string(), 1),
        ("node:Person".to_string(), 3),
    ];
    assert_eq!(forward, assemble_manifest_state(1, &entries, &swapped));
    assert_eq!(forward.entries, vec![entry("node:Company", 4), entry("node:Person", 5)]);
}

#[test]
fn the_first_of_two_equal_versions_counts() {
    let mut other = entry("node:Person", 5);
    other.row_count = 1;
    let state = assemble_manifest_state(1, &vec![entry("node:Person", 5), other], &Vec::new());
    assert_eq!(state.entries, vec![entry("node:Person", 5)]);
}

#[test]
fn a_removal_covers_versions_up_to_its_own() {
    let entries = vec![entry("node:Person", 5), entry("node:Company", 5)];
    let removed = vec![
        ("node:Person".to_string(), 5),
        ("node:Company".to_string(), 4),
        ("node:Person".to_string(), 1),
    ];
    let state = assemble_manifest_state(1, &entries, &removed);
    assert_eq!(state.entries, vec![entry("node:Company", 5)]);
    let again = assemble_manifest_state(1, &state.entries, &Vec::new());
    assert_eq!(again, state);
}

#[test]
fn a_fresh_manifest_is_read_back() {
    let entries = vec![entry("node:Person", 1), entry("edge:Knows", 1)];
    let described = vec![
        ("edge:Knows".to_string(), "knows-json".to_string()),
        ("node:Person".to_string(), "person-json".to_string()),
    ];
    let genesis = commit("01H", 1, 5);
    let (commit_part, head_part) = graph_lineage_row_parts(
        &genesis,
        &None,
        Ok("commit-json".to_string()),
        Ok("head-json".to_string()),
    )
    .unwrap();
    let batch = entries_to_batch(
        &entries,
        &vec!["person@1".to_string(), "knows@1".to_string()],
        &described,
        &vec![commit_part, head_part],
    )
    .unwrap();
    let rows = read_state_rows(&batch, true).unwrap();
    assert_eq!(rows.len(), 6);
    assert_eq!(rows[1].object_id, "person@1");
    assert_eq!(rows[1].metadata, Some("person-json".to_string()));
    assert_eq!(rows[3].metadata, Some("knows-json".to_string()));
    assert_eq!(rows[4].object_id, "01H");
    assert_eq!(rows[5].object_id, "graph_head:main");
    let decoded = vec![
        RowMetadata::Unread,
        RowMetadata::Table(Ok(metadata(1))),
        RowMetadata::Unread,
        RowMetadata::Table(Ok(metadata(1))),
        RowMetadata::Unread,
        RowMetadata::Unread,
    ];
    let scan = scan_rows(ManifestScan::new(), &rows, &decoded, false).unwrap();
    assert!(scan.lineage_rows.is_empty());
    let state = read_manifest_state(1, &finish_scan(scan).unwrap());
    assert_eq!(
        state.entries,
        vec![entry("edge:Knows", 1), entry("node:Person", 1)]
    );
}

#[test]
fn a_fresh_manifest_describes_every_table() {
    let error = entries_to_batch(
        &vec![entry("node:Person", 1)],
        &vec!["person@1".to_string()],
        &Vec::new(),
        &Vec::new(),
    )
    .err()
    .unwrap();
    assert!(error
        .to_text()
        .contains("missing initial version metadata for node:Person"));
}

#[test]
fn a_scan_refuses_incomplete_rows() {
    let scan = |row: ManifestRow, metadata: RowMetadata| {
        scan_rows(ManifestScan::new(), &vec![row], &vec![metadata], true)
            .err()
            .unwrap()
            .to_text()
    };
    assert!(scan(row(OBJECT_TYPE_TABLE, "node:Person"), RowMetadata::Unread)
        .contains("manifest table row missing location for node:Person"));
    assert!(
        scan(row(OBJECT_TYPE_TABLE_VERSION, "node:Person"), RowMetadata::Unread)
            .contains("table_version")
    );
    let mut version = row(OBJECT_TYPE_TABLE_VERSION, "node:Person");
    version.table_version = Some(2);
    assert!(scan(version, RowMetadata::Unread).contains("row_count"));
    let mut version = row(OBJECT_TYPE_TABLE_VERSION, "node:Person");
    version.table_version = Some(2);
    version.row_count = Some(2);
    assert!(scan(version, RowMetadata::Unread)
        .contains("manifest table_version row missing metadata for node:Person"));
    assert!(
        scan(row(OBJECT_TYPE_TABLE_TOMBSTONE, "node:Person"), RowMetadata::Unread)
            .contains("table_version")
    );
    assert!(
        scan(row(OBJECT_TYPE_GRAPH_COMMIT, ""), RowMetadata::Unread)
            .contains("manifest graph_commit row missing metadata for graph_commit/")
    );
}

#[test]
fn a_scan_passes_over_what_it_does_not_know() {
    let rows = vec![row("future_type", "x"), row(OBJECT_TYPE_GRAPH_COMMIT, "")];
    let unread = || vec![RowMetadata::Unread, RowMetadata::Unread];
    let scan = scan_rows(ManifestScan::new(), &rows, &unread(), false).unwrap();
    assert_eq!(scan, ManifestScan::new());
}

#[test]
fn the_last_location_of_a_table_counts() {
    let rows = vec![
        ManifestRow {
            location: Some("old".to_string()),
            ..row(OBJECT_TYPE_TABLE, "node:Person")
        },
        ManifestRow {
            location: Some("new".to_string()),
            ..row(OBJECT_TYPE_TABLE, "node:Person")
        },
        ManifestRow {
            metadata: Some("json".to_string()),
            table_version: Some(2),
            row_count: Some(3),
            ..row(OBJECT_TYPE_TABLE_VERSION, "node:Person")
        },
    ];
    let decoded = vec![
        RowMetadata::Unread,
        RowMetadata::Unread,
        RowMetadata::Table(Ok(metadata(2))),
    ];
    let scan = finish_scan(scan_rows(ManifestScan::new(), &rows, &decoded, false).unwrap());
    assert_eq!(scan.unwrap().version_entries[0].table_path, "new");
    let orphan = scan_rows(
        ManifestScan::new(),
        &vec![ManifestRow {
            metadata: Some("json".to_string()),
            table_version: Some(2),
            row_count: Some(3),
            ..row(OBJECT_TYPE_TABLE_VERSION, "node:Person")
        }],
        &vec![RowMetadata::Table(Ok(metadata(2)))],
        false,
    );
    let error = finish_scan(orphan.unwrap()).unwrap_err();
    assert!(error
        .to_text()
        .contains("manifest missing table row for node:Person"));
}

#[test]
fn head_rows_are_named_after_their_branch() {
    assert_eq!(graph_head_object_id(&None), "graph_head:main");
    assert_eq!(
        graph_head_object_id(&Some("feature".to_string())),
        "graph_head:feature"
    );
}

#[test]
fn the_head_is_the_newest_commit() {
    assert_eq!(head_lineage_row(&Vec::new()), None);
    let rows = vec![commit("a", 2, 9), commit("b", 3, 1), commit("c", 1, 99)];
    assert_eq!(head_lineage_row(&rows).unwrap().graph_commit_id, "b");
    let tied = vec![commit("a", 3, 1), commit("b", 3, 2), commit("c", 3, 2)];
    assert_eq!(head_lineage_row(&tied).unwrap().graph_commit_id, "c");
}

#[test]
fn a_commit_is_read_back_from_its_rows() {
    let mut original = commit("01H", 4, 77);
    original.manifest_branch = Some("feature".to_string());
    original.parent_commit_id = Some("01G".to_string());
    let (commit_part, head_part) = graph_lineage_row_parts(
        &original,
        &Some("feature".to_string()),
        Ok("c".to_string()),
        Ok("h".to_string()),
    )
    .unwrap();
    assert_eq!(head_part.object_id, "graph_head:feature");
    assert_eq!(
        graph_head_metadata(&original).head_commit_id,
        "01H".to_string()
    );
    let stored = ManifestRow {
        object_id: commit_part.object_id,
        object_type: commit_part.object_type.to_string(),
        location: None,
        metadata: Some(commit_part.metadata),
        table_key: String::new(),
        table_version: commit_part.table_version,
        table_branch: commit_part.table_branch,
        row_count: None,
    };
    let decoded = decode_graph_commit_row(&stored, 0, &Ok(graph_commit_metadata(&original)));
    assert_eq!(decoded.unwrap(), original);
    let error = decode_graph_commit_row(&stored, 0, &Err("eof".to_string())).unwrap_err();
    assert!(error
        .to_text()
        .contains("failed to decode graph_commit metadata: eof"));
    let error = graph_lineage_row_parts(
        &original,
        &None,
        Err("cannot encode".to_string()),
        Ok("h".to_string()),
    )
    .unwrap_err();
    assert!(error.to_text().contains("cannot encode"));
}

#[test]
fn lineage_collects_commits_and_heads() {
    let first = commit("01A", 1, 1);
    let second = commit("01B", 2, 2);
    let mut rows = Vec::new();
    let mut decoded = Vec::new();
    for item in [&first, &second] {
        let (commit_part, head_part) = graph_lineage_row_parts(
            item,
            &None,
            Ok("c".to_string()),
            Ok("h".to_string()),
        )
        .unwrap();
        for part in [commit_part, head_part] {
            rows.push(ManifestRow {
                object_id: part.object_id,
                object_type: part.object_type.to_string(),
                location: None,
                metadata: Some(part.metadata),
                table_key: String::new(),
                table_version: part.table_version,
                table_branch: part.table_branch,
                row_count: None,
            });
        }
        decoded.push(LineageMetadata::Commit(Ok(graph_commit_metadata(item))));
        decoded.push(LineageMetadata::Head(Ok(graph_head_metadata(item))));
    }
    let lineage = read_graph_lineage(GraphLineage::new(), &rows, &decoded).unwrap();
    assert_eq!(lineage.commits, vec![first, second]);
    assert_eq!(head_of(&lineage, "main"), Some(&"01B".to_string()));
    assert_eq!(head_of(&lineage, "feature"), None);
    assert_eq!(value_of(&lineage.heads, "main"), Some(&"01B".to_string()));
}
