//! How the end of an attempt is recognized and recorded.

use omnigraph::arm::{new_ensure_indices_sidecar_v6, new_occ_sidecar_v9, new_unvalidated_sidecar, FreshIds};
use omnigraph::confirm::mutation_load::confirm_occ_sidecar_v9;
use omnigraph::error::OmniError;
use omnigraph::identity::{table_path_for_identity, IdentityMap, TableIdentity};
use omnigraph::lineage::GraphLineageRow;
use omnigraph::outcome::{
    check_unreadable_sidecar, commit_with_id, detect_visible_ensure_indices_rollback,
    detect_visible_v3_outcome, ensure_read_only_schema_coherent, finalize_visible_v3_outcome,
    missing_audit_row, OutcomeStep, SchemaStateIdentity, VisibleExactOutcome,
};
use omnigraph::publish::{
    already_recorded, audit_record, fixed_authority_of, fixed_lineage_of, fixed_rollback_id_of,
    new_orphan_discard_intent, new_recovery_lineage_intent, orphan_discard_intent, record_audit,
    recovery_lineage_intent, recovery_precondition, LineageIntent, PublishPrecondition,
    RecoveryKind, SubTableUpdate,
};
use omnigraph::sidecar::{
    BranchIdentifier, RecoveryAuthorityToken, RecoveryLineageIntent, RecoverySidecar, SidecarKind,
    SidecarTablePin, StagedTransactionIdentity, TableOutcome, TableVersionMetadata,
};
use omnigraph::snapshot::{Snapshot, SnapshotEntry, SubTableEntry};

const ROOT: &str = "memory://test-graph";

fn test_identity(table_key: &str) -> TableIdentity {
    match table_key {
        "node:Person" => TableIdentity::new(1, 11).unwrap(),
        "node:Company" => TableIdentity::new(2, 22).unwrap(),
        "edge:WorksAt" => TableIdentity::new(3, 33).unwrap(),
        other => panic!("test table '{other}' has no explicit identity"),
    }
}

fn make_pin(table_key: &str, expected: u64, post: u64) -> SidecarTablePin {
    let identity = test_identity(table_key);
    SidecarTablePin {
        identity,
        table_key: table_key.to_string(),
        table_path: format!(
            "memory://test-graph/{}",
            table_path_for_identity(table_key, identity).unwrap()
        ),
        expected_version: expected,
        post_commit_pin: post,
        confirmed_version: None,
        table_branch: None,
    }
}

fn transaction(read_version: u64, uuid: &str) -> StagedTransactionIdentity {
    StagedTransactionIdentity {
        read_version,
        uuid: uuid.to_string(),
    }
}

fn metadata() -> TableVersionMetadata {
    TableVersionMetadata {
        manifest_path: "6.manifest".to_string(),
        manifest_size: None,
        e_tag: None,
        naming_scheme: None,
    }
}

fn armed() -> RecoverySidecar {
    let mut planned = IdentityMap::new();
    planned.set(test_identity("node:Person"), transaction(5, "person"));
    new_occ_sidecar_v9(
        SidecarKind::Load,
        None,
        Some("act".to_string()),
        vec![make_pin("node:Person", 5, 6)],
        RecoveryAuthorityToken {
            branch_identifier: BranchIdentifier::main(),
            graph_head: Some("parent".to_string()),
            schema_identity_domain: "domain-a".to_string(),
            schema_ir_hash: "schema-hash".to_string(),
            schema_identity_version: 1,
        },
        RecoveryLineageIntent {
            graph_commit_id: "original".to_string(),
            branch: None,
            actor_id: Some("act".to_string()),
            merged_parent_commit_id: None,
            created_at: 123,
        },
        &planned,
    )
    .unwrap()
}

fn confirmed() -> RecoverySidecar {
    let mut committed = IdentityMap::new();
    committed.set(test_identity("node:Person"), transaction(5, "person"));
    confirm_occ_sidecar_v9(
        ROOT,
        &armed(),
        &vec![SubTableUpdate {
            identity: test_identity("node:Person"),
            table_key: "node:Person".to_string(),
            table_version: 6,
            table_branch: None,
            row_count: 9,
            version_metadata: metadata(),
        }],
        &committed,
    )
    .unwrap()
}

fn commit(id: &str) -> GraphLineageRow {
    GraphLineageRow {
        graph_commit_id: id.to_string(),
        manifest_branch: None,
        manifest_version: 40,
        parent_commit_id: Some("parent".to_string()),
        merged_parent_commit_id: None,
        actor_id: Some("act".to_string()),
        created_at: 123,
    }
}

fn published(row_count: u64) -> Snapshot {
    Snapshot {
        entries: vec![SnapshotEntry {
            identity: test_identity("node:Person"),
            table: SubTableEntry {
                table_key: "node:Person".to_string(),
                table_path: "nodes/person".to_string(),
                table_version: 6,
                table_branch: None,
                row_count,
                version_metadata: metadata(),
            },
        }],
    }
}

#[test]
fn an_attempt_that_was_published_is_recognized() {
    let sidecar = confirmed();
    let payload = sidecar.protocol_v3.as_ref().unwrap();
    let commits = vec![commit("other"), commit("original")];
    assert_eq!(
        commit_with_id(&commits, &"original".to_string()),
        Some(&commits[1])
    );
    assert_eq!(
        detect_visible_v3_outcome(&sidecar, payload, &Vec::new(), &None),
        Ok(OutcomeStep::Decided(None))
    );
    assert_eq!(
        detect_visible_v3_outcome(&sidecar, payload, &commits, &None),
        Ok(OutcomeStep::ReadManifestVersion(40))
    );
    assert_eq!(
        detect_visible_v3_outcome(&sidecar, payload, &commits, &Some(published(9))),
        Ok(OutcomeStep::Decided(Some(VisibleExactOutcome::Original)))
    );
    let error = detect_visible_v3_outcome(&sidecar, payload, &commits, &Some(published(8)))
        .unwrap_err();
    assert!(error.to_text().contains("but its manifest delta differs"));
    let mut foreign = commit("original");
    foreign.actor_id = None;
    let error =
        detect_visible_v3_outcome(&sidecar, payload, &vec![foreign], &Some(published(9)))
            .unwrap_err();
    assert!(error.to_text().contains("with mismatched lineage"));
}

#[test]
fn an_attempt_never_ends_both_ways() {
    let sidecar = confirmed();
    let payload = sidecar.protocol_v3.as_ref().unwrap();
    let undone = commit(&payload.rollback_graph_commit_id);
    assert_eq!(
        detect_visible_v3_outcome(
            &sidecar,
            payload,
            &vec![commit(&payload.rollback_graph_commit_id)],
            &None
        ),
        Ok(OutcomeStep::Decided(Some(VisibleExactOutcome::RolledBack)))
    );
    let error = detect_visible_v3_outcome(
        &sidecar,
        payload,
        &vec![commit("original"), undone],
        &Some(published(9)),
    )
    .unwrap_err();
    assert!(error
        .to_text()
        .contains("visible; refusing ambiguous finalization"));
}

#[test]
fn a_visible_end_is_audited_once() {
    let sidecar = confirmed();
    let payload = sidecar.protocol_v3.as_ref().unwrap();
    let closing =
        finalize_visible_v3_outcome(&sidecar, payload, VisibleExactOutcome::Original).unwrap();
    assert_eq!(closing.kind, RecoveryKind::RolledForward);
    assert_eq!(closing.graph_commit_id, "original");
    assert_eq!(
        closing.outcomes,
        vec![TableOutcome {
            table_key: "node:Person".to_string(),
            from_version: 5,
            to_version: 6,
        }]
    );
    let row = missing_audit_row(&sidecar, closing, &Vec::new(), 77).unwrap();
    assert_eq!(row.sidecar_writer_kind, "Load");
    assert_eq!(row.recovery_for_actor, Some("act".to_string()));
    assert_eq!(row.created_at, 77);
    let closing =
        finalize_visible_v3_outcome(&sidecar, payload, VisibleExactOutcome::Original).unwrap();
    assert_eq!(missing_audit_row(&sidecar, closing, &vec![row], 78), None);
}

#[test]
fn a_rollback_needs_its_plan_to_be_closed() {
    let sidecar = confirmed();
    let payload = sidecar.protocol_v3.as_ref().unwrap();
    assert!(
        finalize_visible_v3_outcome(&sidecar, payload, VisibleExactOutcome::RolledBack).is_err()
    );
    let mut planned = confirmed();
    planned.protocol_v3.as_mut().unwrap().rollback_audit_outcomes = Some(Vec::new());
    let payload = planned.protocol_v3.as_ref().unwrap();
    let closing =
        finalize_visible_v3_outcome(&planned, payload, VisibleExactOutcome::RolledBack).unwrap();
    assert_eq!(closing.kind, RecoveryKind::RolledBack);
    assert_eq!(closing.graph_commit_id, payload.rollback_graph_commit_id);
    assert!(closing.outcomes.is_empty());
}

#[test]
fn a_loose_rollback_is_recognized_by_its_fixed_commit() {
    let sidecar =
        new_ensure_indices_sidecar_v6(None, vec![make_pin("node:Person", 5, 6)]).unwrap();
    let payload = sidecar.ensure_indices_rollback_v6.as_ref().unwrap();
    assert_eq!(
        detect_visible_ensure_indices_rollback(&sidecar, payload, &vec![commit("x")]),
        Ok(false)
    );
    assert_eq!(
        fixed_rollback_id_of(&sidecar, RecoveryKind::RolledBack),
        Some(&payload.rollback_graph_commit_id)
    );
    assert_eq!(fixed_rollback_id_of(&sidecar, RecoveryKind::RolledForward), None);
}

#[test]
fn a_loose_rollback_needs_a_readable_start() {
    let mut sidecar =
        new_ensure_indices_sidecar_v6(None, vec![make_pin("node:Person", 5, 6)]).unwrap();
    sidecar.started_at = "99999999999999999999x".to_string();
    let payload = sidecar.ensure_indices_rollback_v6.as_ref().unwrap();
    let found = vec![commit(&payload.rollback_graph_commit_id)];
    let error = detect_visible_ensure_indices_rollback(&sidecar, payload, &found).unwrap_err();
    assert_eq!(
        error,
        OmniError::manifest_internal(&format!(
            "EnsureIndices recovery sidecar '{}' has invalid started_at '99999999999999999999x': \
             number too large to fit in target type",
            sidecar.operation_id
        ))
    );
}

#[test]
fn a_recovery_is_published_under_fixed_lineage() {
    let sidecar = confirmed();
    assert_eq!(
        fixed_lineage_of(&sidecar).unwrap().graph_commit_id,
        "original"
    );
    assert_eq!(
        fixed_authority_of(&sidecar).unwrap().graph_head,
        Some("parent".to_string())
    );
    let forward = recovery_lineage_intent(
        &sidecar,
        RecoveryKind::RolledForward,
        "fresh".to_string(),
        Ok(1),
    )
    .unwrap();
    assert_eq!(
        forward,
        LineageIntent::from_recovery(fixed_lineage_of(&sidecar).unwrap())
    );
    let mut started = confirmed();
    started.started_at = "4321".to_string();
    let back = recovery_lineage_intent(
        &started,
        RecoveryKind::RolledBack,
        "fresh".to_string(),
        Ok(1),
    )
    .unwrap();
    assert_eq!(
        back.graph_commit_id,
        started.protocol_v3.as_ref().unwrap().rollback_graph_commit_id
    );
    assert_eq!(back.created_at, 4321);
    assert_eq!(back.actor_id, Some("omnigraph:recovery".to_string()));
    started.started_at = "later".to_string();
    let back = recovery_lineage_intent(
        &started,
        RecoveryKind::RolledBack,
        "fresh".to_string(),
        Ok(1),
    )
    .unwrap();
    assert_eq!(back.created_at, 1);
    let error = recovery_lineage_intent(
        &sidecar,
        RecoveryKind::OrphanedBranchDiscarded,
        "fresh".to_string(),
        Ok(1),
    )
    .unwrap_err();
    assert!(error.to_text().contains("orphaned-branch discard cannot publish"));
    assert_eq!(
        recovery_precondition(&sidecar, RecoveryKind::RolledForward),
        PublishPrecondition::ExactGraphHead {
            branch: None,
            branch_identifier: BranchIdentifier::main(),
            graph_head: Some("parent".to_string()),
        }
    );
}

#[test]
fn a_loose_recovery_gets_a_fresh_commit() {
    let mut sidecar = new_unvalidated_sidecar(
        1,
        SidecarKind::BranchMerge,
        &FreshIds::generate(),
        None,
        None,
        Vec::new(),
    );
    sidecar.merge_source_commit_id = Some("source".to_string());
    let intent = new_recovery_lineage_intent(&sidecar, RecoveryKind::RolledForward).unwrap();
    assert_eq!(intent.graph_commit_id.len(), 26);
    assert_eq!(intent.merged_parent_commit_id, Some("source".to_string()));
    assert!(intent.created_at > 1_600_000_000_000_000);
    let intent = new_orphan_discard_intent().unwrap();
    assert_eq!(intent.branch, None);
    assert_eq!(
        orphan_discard_intent("id".to_string(), 3).actor_id,
        Some("omnigraph:recovery".to_string())
    );
    assert_eq!(
        recovery_precondition(&sidecar, RecoveryKind::RolledForward),
        PublishPrecondition::Any
    );
}

#[test]
fn an_audit_row_is_found_again() {
    let sidecar = armed();
    let row = audit_record(
        &sidecar,
        "commit".to_string(),
        RecoveryKind::RolledBack,
        Vec::new(),
        5,
    );
    let rows = vec![row];
    assert!(already_recorded(
        &rows,
        &sidecar.operation_id,
        RecoveryKind::RolledBack
    ));
    assert!(!already_recorded(
        &rows,
        &sidecar.operation_id,
        RecoveryKind::RolledForward
    ));
    let now = record_audit(
        &sidecar,
        "commit".to_string(),
        RecoveryKind::RolledBack,
        Vec::new(),
    )
    .unwrap();
    assert!(now.created_at > 1_600_000_000_000_000);
}

#[test]
fn a_read_only_open_refuses_a_half_applied_schema() {
    let error = check_unreadable_sidecar("root/__recovery/op.json", "broken", true).unwrap_err();
    match error {
        OmniError::RecoveryRequired { operation_id, .. } => assert_eq!(operation_id, "op"),
        other => panic!("expected a required recovery, got {other:?}"),
    }
    assert!(check_unreadable_sidecar("root/__recovery/op.json", "broken", false).is_ok());
    let live = || {
        Ok(SchemaStateIdentity {
            schema_identity_domain: "domain-a".to_string(),
            schema_ir_hash: "schema-hash".to_string(),
            schema_identity_version: 1,
        })
    };
    assert!(ensure_read_only_schema_coherent(&confirmed(), &Ok(None), &live()).is_ok());
    let mut loose = new_unvalidated_sidecar(
        5,
        SidecarKind::SchemaApply,
        &FreshIds::generate(),
        None,
        None,
        Vec::new(),
    );
    loose.schema_apply_target_schema_ir_hash = Some("target".to_string());
    loose.schema_apply_manifest_published = true;
    assert!(ensure_read_only_schema_coherent(&loose, &Ok(None), &live()).is_err());
}
