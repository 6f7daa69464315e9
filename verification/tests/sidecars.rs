//! What a sidecar has to look like, and how it is stored and read.

use omnigraph::arm::{
    new_branch_merge_sidecar_v9, new_ensure_indices_sidecar_v6, new_ensure_indices_sidecar_v9,
    new_occ_sidecar_v9, new_optimize_sidecar_v9, new_schema_apply_sidecar_v9,
    new_unvalidated_sidecar, FreshIds,
};
use omnigraph::classify::{classify_table_observation, TableClassification};
use omnigraph::identity::{table_path_for_identity, IdentityMap, TableIdentity};
use omnigraph::shape::branch_merge::validate_branch_merge_transaction_chain;
use omnigraph::shape::validate::{has_exact_protocol, validate_sidecar_shape};
use omnigraph::sidecar::{
    BranchIdentifier, RecoveryAuthorityToken, RecoveryBranchMergeEffect,
    RecoveryBranchMergeEffectKind, RecoveryEffectPhase, RecoveryLineageIntent,
    RecoveryManifestDelta, RecoveryProtocolV7, RecoverySchemaApplyEffect,
    RecoverySchemaApplyEffectKind, RecoverySidecar, RecoveryTableUpdateSlot, SidecarKind,
    SidecarTablePin, SidecarTableRegistration, SidecarTableRename, StagedTransactionIdentity,
    TableOutcome, ENSURE_INDICES_ROLLBACK_SCHEMA_VERSION, IDENTITY_AWARE_SIDECAR_SCHEMA_VERSION,
    LEGACY_SIDECAR_SCHEMA_VERSION, MAX_BRANCH_MERGE_DATA_TRANSACTIONS,
    MUTATION_LOAD_SIDECAR_SCHEMA_VERSION, SCHEMA_APPLY_CONFIRMATION_SCHEMA_VERSION,
    SIDECAR_SCHEMA_VERSION,
};
use omnigraph::store::{
    admit_sidecar, list_parseable_sidecars_for_read_only, list_sidecars, order_sidecar_uris,
    parse_sidecar, prepare_sidecar_write, recovery_dir_uri, reread_sidecar_under_gates,
    sidecar_uri, SidecarBody, SidecarSchemaError, StoredSidecar,
};
use omnigraph::value::Replicate;

fn test_identity(table_key: &str) -> TableIdentity {
    match table_key {
        "node:Person" => TableIdentity::new(1, 11).unwrap(),
        "node:Company" => TableIdentity::new(2, 22).unwrap(),
        "edge:WorksAt" => TableIdentity::new(3, 33).unwrap(),
        other => panic!("test table '{other}' has no explicit identity"),
    }
}

fn make_pin(table_key: &str, _table_path: &str, expected: u64, post: u64) -> SidecarTablePin {
    let identity = test_identity(table_key);
    SidecarTablePin {
        identity,
        table_key: table_key.to_string(),
        table_path: format!(
            "memory://test-graph/{}",
            table_path_for_identity(table_key, identity).unwrap()
        ),
        expected_version: expected,
        post_commit_pin: post,
        confirmed_version: None,
        table_branch: None,
    }
}

fn bind_sidecar_pins_to_root(sidecar: &mut RecoverySidecar, root: &str) {
    for pin in &mut sidecar.tables {
        let relative = table_path_for_identity(&pin.table_key, pin.identity).unwrap();
        pin.table_path = format!("{}/{relative}", root.trim_end_matches('/'));
    }
}

fn transaction(read_version: u64, uuid: &str) -> StagedTransactionIdentity {
    StagedTransactionIdentity {
        read_version,
        uuid: uuid.to_string(),
    }
}

fn test_branch_identifier(version: u64, suffix: &str) -> BranchIdentifier {
    BranchIdentifier {
        version_mapping: vec![(version, suffix.to_string())],
    }
}

fn empty_delta() -> RecoveryManifestDelta {
    RecoveryManifestDelta {
        table_updates: Vec::new(),
        registrations: Vec::new(),
        renames: Vec::new(),
        tombstones: Vec::new(),
    }
}

fn occ_sidecar() -> RecoverySidecar {
    let mut planned = IdentityMap::new();
    planned.set(
        test_identity("node:Person"),
        transaction(5, "planned-transaction"),
    );
    new_occ_sidecar_v9(
        SidecarKind::Mutation,
        None,
        Some("act-alice".to_string()),
        vec![make_pin("node:Person", "file:///tmp/people.lance", 5, 6)],
        RecoveryAuthorityToken {
            branch_identifier: BranchIdentifier::main(),
            graph_head: Some("01H000000000000000000000AA".to_string()),
            schema_identity_domain: "domain-a".to_string(),
            schema_ir_hash: "schema-hash".to_string(),
            schema_identity_version: 1,
        },
        RecoveryLineageIntent {
            graph_commit_id: "01H000000000000000000000BB".to_string(),
            branch: None,
            actor_id: Some("act-alice".to_string()),
            merged_parent_commit_id: None,
            created_at: 123,
        },
        &planned,
    )
    .unwrap()
}

/// The record of a sidecar, as a store returns it.
fn body(sidecar: &RecoverySidecar) -> SidecarBody {
    SidecarBody {
        schema_version: Ok(sidecar.schema_version),
        sidecar: Ok(sidecar.replicate()),
    }
}

fn stored(root: &str, sidecar: &RecoverySidecar) -> StoredSidecar {
    StoredSidecar {
        uri: sidecar_uri(root, &sidecar.operation_id),
        body: body(sidecar),
    }
}

#[test]
fn sidecar_round_trips_through_json() {
    let original = new_optimize_sidecar_v9(vec![make_pin(
        "node:Person",
        "file:///tmp/people.lance",
        5,
        6,
    )])
    .unwrap();
    let parsed = parse_sidecar("file:///tmp/__recovery/x.json", body(&original)).unwrap();
    assert_eq!(parsed.schema_version, IDENTITY_AWARE_SIDECAR_SCHEMA_VERSION);
    assert_eq!(parsed.operation_id, original.operation_id);
    assert_eq!(parsed.writer_kind, SidecarKind::Optimize);
    assert_eq!(parsed.branch, None);
    assert_eq!(parsed.actor_id, None);
    assert_eq!(parsed.tables.len(), 1);
    assert_eq!(parsed.tables[0].table_key, "node:Person");
    assert_eq!(parsed, original);
}

#[test]
fn pre_v9_sidecars_missing_identity_fail_closed() {
    for schema_version in [MUTATION_LOAD_SIDECAR_SCHEMA_VERSION, 8] {
        let error = parse_sidecar(
            &format!("memory://graph/__recovery/pre-v9-{schema_version}.json"),
            SidecarBody {
                schema_version: Ok(schema_version),
                sidecar: Err("missing field `identity` at line 1 column 300".to_string()),
            },
        )
        .expect_err("a pre-v9 artifact without explicit identity must never be inferred");
        assert!(
            error.to_text().contains("missing field `identity`"),
            "expected missing-identity refusal, got: {}",
            error.to_text()
        );
    }
}

#[test]
fn schema_apply_v9_round_trips_metadata_only_rename_with_fixed_occ() {
    let identity = test_identity("node:Person");
    let path = table_path_for_identity("node:Person", identity).unwrap();
    let sidecar = new_schema_apply_sidecar_v9(
        Some("act-schema".to_string()),
        Vec::new(),
        RecoveryAuthorityToken {
            branch_identifier: BranchIdentifier::main(),
            graph_head: Some("01H000000000000000000000R0".to_string()),
            schema_identity_domain: "domain-a".to_string(),
            schema_ir_hash: "accepted-schema".to_string(),
            schema_identity_version: 1,
        },
        RecoveryLineageIntent {
            graph_commit_id: "01H000000000000000000000R1".to_string(),
            branch: None,
            actor_id: Some("act-schema".to_string()),
            merged_parent_commit_id: None,
            created_at: 790,
        },
        Vec::new(),
        RecoveryManifestDelta {
            table_updates: Vec::new(),
            registrations: Vec::new(),
            renames: vec![SidecarTableRename {
                identity,
                expected_table_key: "node:Person".to_string(),
                expected_version: 5,
                table_key: "node:Human".to_string(),
                table_path: path.clone(),
            }],
            tombstones: Vec::new(),
        },
        "target-schema".to_string(),
    )
    .unwrap();

    let parsed =
        parse_sidecar("memory://graph/__recovery/rename-v9.json", body(&sidecar)).unwrap();
    let rename = &parsed.protocol_v7.as_ref().unwrap().intended_delta.renames[0];
    assert_eq!(rename.identity, identity);
    assert_eq!(rename.expected_version, 5);
    assert_eq!(rename.table_path, path);
    assert!(parsed.tables.is_empty());

    let mut missing_occ = sidecar;
    missing_occ
        .protocol_v7
        .as_mut()
        .unwrap()
        .intended_delta
        .renames[0]
        .expected_version = 0;
    let error = validate_sidecar_shape("<rename-without-occ>", &missing_occ)
        .expect_err("metadata-only rename must carry fixed table-version authority");
    assert!(error.to_text().contains("live expected version"));
}

#[test]
fn schema_apply_confirmation_fields_are_version_gated() {
    let legacy = new_unvalidated_sidecar(
        LEGACY_SIDECAR_SCHEMA_VERSION,
        SidecarKind::SchemaApply,
        &FreshIds::generate(),
        None,
        None,
        Vec::new(),
    );
    parse_sidecar("file:///tmp/__recovery/legacy-schema.json", body(&legacy))
        .expect("plain schema-v2 SchemaApply remains readable");

    let mut wrong_version = legacy.replicate();
    wrong_version.schema_apply_target_schema_ir_hash = Some("target-hash".to_string());
    let error = parse_sidecar(
        "file:///tmp/__recovery/wrong-version-schema.json",
        body(&wrong_version),
    )
    .expect_err("schema-v2 must not opt into schema-v5 confirmation semantics");
    assert!(error.to_text().contains("require schema-v5"));

    wrong_version.schema_version = SCHEMA_APPLY_CONFIRMATION_SCHEMA_VERSION;
    parse_sidecar("file:///tmp/__recovery/schema-v5.json", body(&wrong_version))
        .expect("schema-v5 accepts a target identity before Phase C confirmation");
}

#[test]
fn schema_apply_v7_sidecar_round_trips_exact_first_touch_envelope() {
    let planned = transaction(0, "schema-create-company");
    let identity = test_identity("node:Company");
    let sidecar = new_schema_apply_sidecar_v9(
        Some("act-schema".to_string()),
        vec![make_pin(
            "node:Company",
            "memory://graph/nodes/company",
            0,
            1,
        )],
        RecoveryAuthorityToken {
            branch_identifier: BranchIdentifier::main(),
            graph_head: Some("01H000000000000000000000S0".to_string()),
            schema_identity_domain: "domain-a".to_string(),
            schema_ir_hash: "accepted-schema".to_string(),
            schema_identity_version: 1,
        },
        RecoveryLineageIntent {
            graph_commit_id: "01H000000000000000000000S1".to_string(),
            branch: None,
            actor_id: Some("act-schema".to_string()),
            merged_parent_commit_id: None,
            created_at: 789,
        },
        vec![RecoverySchemaApplyEffect {
            identity,
            table_key: "node:Company".to_string(),
            kind: RecoverySchemaApplyEffectKind::FirstTouchDataset {
                planned_transaction: planned,
                confirmed_transaction: None,
            },
        }],
        RecoveryManifestDelta {
            table_updates: vec![RecoveryTableUpdateSlot {
                identity,
                table_key: "node:Company".to_string(),
                expected_version: 0,
                table_branch: None,
                confirmed: None,
            }],
            registrations: vec![SidecarTableRegistration {
                identity,
                table_key: "node:Company".to_string(),
                table_path: table_path_for_identity("node:Company", identity).unwrap(),
                table_branch: None,
            }],
            renames: Vec::new(),
            tombstones: Vec::new(),
        },
        "target-schema".to_string(),
    )
    .unwrap();

    assert_eq!(
        sidecar.schema_version,
        IDENTITY_AWARE_SIDECAR_SCHEMA_VERSION
    );
    assert_eq!(
        sidecar.protocol_v7.as_ref().unwrap().effect_phase,
        RecoveryEffectPhase::Armed
    );
    let parsed =
        parse_sidecar("memory://graph/__recovery/schema-v9.json", body(&sidecar)).unwrap();
    assert_eq!(parsed.actor_id.as_deref(), Some("act-schema"));

    let mut missing_registration = sidecar;
    missing_registration
        .protocol_v7
        .as_mut()
        .unwrap()
        .intended_delta
        .registrations
        .clear();
    let error = validate_sidecar_shape("<missing-registration>", &missing_registration)
        .expect_err("first-touch ownership must have a matching registration");
    assert!(error.to_text().contains("first-touch effects must match"));
}

#[test]
fn ensure_indices_fixed_rollback_is_version_gated() {
    let pin = make_pin("node:Person", "file:///tmp/people.lance", 5, 6);
    let legacy = new_unvalidated_sidecar(
        LEGACY_SIDECAR_SCHEMA_VERSION,
        SidecarKind::EnsureIndices,
        &FreshIds::generate(),
        Some("feature".to_string()),
        None,
        vec![pin.replicate()],
    );
    parse_sidecar("file:///tmp/__recovery/legacy-index.json", body(&legacy))
        .expect("plain schema-v2 EnsureIndices remains readable");

    let current = new_ensure_indices_sidecar_v6(Some("feature".to_string()), vec![pin]).unwrap();
    assert_eq!(
        current.schema_version,
        ENSURE_INDICES_ROLLBACK_SCHEMA_VERSION
    );
    assert!(current.ensure_indices_rollback_v6.is_some());
    parse_sidecar("file:///tmp/__recovery/index-v6.json", body(&current))
        .expect("schema-v6 accepts the fixed rollback payload");

    let mut wrong_version = current;
    wrong_version.schema_version = LEGACY_SIDECAR_SCHEMA_VERSION;
    let error = parse_sidecar(
        "file:///tmp/__recovery/wrong-version-index.json",
        body(&wrong_version),
    )
    .expect_err("schema-v2 must not opt into schema-v6 rollback semantics");
    assert!(error.to_text().contains("requires schema-v6"));
}

#[test]
fn ensure_indices_v9_round_trips_existing_and_first_touch_effects() {
    let mut existing = make_pin("node:Person", "file:///tmp/people.lance", 5, 6);
    existing.table_branch = Some("feature".to_string());
    let mut first_touch = make_pin("node:Company", "file:///tmp/companies.lance", 3, 4);
    first_touch.table_branch = Some("feature".to_string());
    let person_identity = existing.identity;
    let company_identity = first_touch.identity;
    let mut planned = IdentityMap::new();
    planned.set(person_identity, transaction(5, "index-person"));
    planned.set(company_identity, transaction(3, "index-company"));
    let mut forks = IdentityMap::new();
    forks.set(company_identity, 3);
    let sidecar = new_ensure_indices_sidecar_v9(
        Some("feature".to_string()),
        None,
        vec![existing, first_touch],
        RecoveryAuthorityToken {
            branch_identifier: test_branch_identifier(8, "graph-feature"),
            graph_head: Some("01H000000000000000000000I0".to_string()),
            schema_identity_domain: "domain-a".to_string(),
            schema_ir_hash: "schema-hash".to_string(),
            schema_identity_version: 1,
        },
        RecoveryLineageIntent {
            graph_commit_id: "01H000000000000000000000I1".to_string(),
            branch: Some("feature".to_string()),
            actor_id: None,
            merged_parent_commit_id: None,
            created_at: 456,
        },
        &planned,
        &forks,
    )
    .unwrap();

    assert_eq!(
        sidecar.schema_version,
        IDENTITY_AWARE_SIDECAR_SCHEMA_VERSION
    );
    assert!(sidecar.ensure_indices_rollback_v6.is_none());
    let protocol = sidecar.protocol_v8.as_ref().unwrap();
    assert_eq!(protocol.effect_phase, RecoveryEffectPhase::Armed);
    assert!(
        protocol
            .effects
            .iter()
            .find(|effect| effect.table_key == "node:Person")
            .unwrap()
            .source_fork_version
            .is_none(),
        "an existing branch-owned ref must not be reinterpreted as first-touch"
    );
    assert_eq!(
        protocol
            .effects
            .iter()
            .find(|effect| effect.table_key == "node:Company")
            .unwrap()
            .source_fork_version,
        Some(3)
    );
    parse_sidecar("file:///tmp/__recovery/index-v9.json", body(&sidecar))
        .expect("schema-v9 exact EnsureIndices sidecar round-trips");

    let mut wrong_fork = sidecar;
    wrong_fork
        .protocol_v8
        .as_mut()
        .unwrap()
        .effects
        .iter_mut()
        .find(|effect| effect.table_key == "node:Company")
        .unwrap()
        .source_fork_version = Some(2);
    let error = validate_sidecar_shape("<wrong-index-fork>", &wrong_fork)
        .expect_err("first-touch source must equal the exact manifest pin");
    assert!(error.to_text().contains("first-touch fork identity"));
}

#[test]
fn occ_sidecar_round_trips_armed_with_stable_ids_and_exact_effect() {
    let original = occ_sidecar();
    assert_eq!(
        original.schema_version,
        IDENTITY_AWARE_SIDECAR_SCHEMA_VERSION
    );
    let protocol = original.protocol_v3.as_ref().unwrap();
    assert_eq!(protocol.effect_phase, RecoveryEffectPhase::Armed);
    assert_eq!(protocol.effects.len(), 1);
    assert_eq!(
        protocol.effects[0].planned_transaction,
        transaction(5, "planned-transaction")
    );
    assert!(!protocol.rollback_graph_commit_id.is_empty());
    assert_eq!(
        protocol.lineage.graph_commit_id,
        "01H000000000000000000000BB"
    );

    let parsed = parse_sidecar("memory://graph/__recovery/op.json", body(&original)).unwrap();
    assert_eq!(
        parsed.protocol_v3.as_ref().unwrap().authority,
        protocol.authority
    );

    let pin = &parsed.tables[0];
    assert_eq!(
        classify_table_observation(
            pin,
            6,
            &Some(transaction(5, "planned-transaction")),
            5,
            SidecarKind::Mutation,
            SIDECAR_SCHEMA_VERSION,
            &parsed.protocol_v3,
        ),
        TableClassification::IncompletePhaseB,
        "an Armed sidecar must roll back even when its planned transaction is at HEAD"
    );
}

fn merge_sidecar() -> RecoverySidecar {
    let lineage = RecoveryLineageIntent {
        graph_commit_id: "01H000000000000000000000M1".to_string(),
        branch: Some("target".to_string()),
        actor_id: Some("act-merge".to_string()),
        merged_parent_commit_id: Some("01H000000000000000000000S1".to_string()),
        created_at: 456,
    };
    let mut multi_pin = make_pin("node:Person", "memory://person", 5, 6);
    multi_pin.table_branch = Some("target".to_string());
    let mut ref_pin = make_pin("node:Company", "memory://company", 4, 8);
    ref_pin.table_branch = Some("target".to_string());
    let person_identity = multi_pin.identity;
    let company_identity = ref_pin.identity;
    let works_at_identity = test_identity("edge:WorksAt");
    let effects = vec![
        RecoveryBranchMergeEffect {
            identity: person_identity,
            table_key: "node:Person".to_string(),
            kind: RecoveryBranchMergeEffectKind::MultiCommitHead {
                source_fork_version: Some(5),
                planned_transactions: vec![
                    transaction(5, "merge-person-append"),
                    transaction(6, "merge-person-delete"),
                ],
                confirmed_version: None,
                confirmed_branch_identifier: None,
            },
        },
        RecoveryBranchMergeEffect {
            identity: company_identity,
            table_key: "node:Company".to_string(),
            kind: RecoveryBranchMergeEffectKind::RefOnlyFork {
                source_version: 8,
                confirmed_branch_identifier: None,
            },
        },
    ];
    let intended_delta = RecoveryManifestDelta {
        table_updates: vec![
            RecoveryTableUpdateSlot {
                identity: person_identity,
                table_key: "node:Person".to_string(),
                expected_version: 5,
                table_branch: Some("target".to_string()),
                confirmed: None,
            },
            RecoveryTableUpdateSlot {
                identity: company_identity,
                table_key: "node:Company".to_string(),
                expected_version: 4,
                table_branch: Some("target".to_string()),
                confirmed: None,
            },
            RecoveryTableUpdateSlot {
                identity: works_at_identity,
                table_key: "edge:WorksAt".to_string(),
                expected_version: 2,
                table_branch: None,
                confirmed: None,
            },
        ],
        registrations: Vec::new(),
        renames: Vec::new(),
        tombstones: Vec::new(),
    };
    new_branch_merge_sidecar_v9(
        Some("target".to_string()),
        Some("act-merge".to_string()),
        vec![multi_pin, ref_pin],
        RecoveryAuthorityToken {
            branch_identifier: test_branch_identifier(3, "target-incarnation"),
            graph_head: Some("01H000000000000000000000T1".to_string()),
            schema_identity_domain: "domain-a".to_string(),
            schema_ir_hash: "schema-hash".to_string(),
            schema_identity_version: 1,
        },
        lineage,
        effects,
        intended_delta,
    )
    .unwrap()
}

fn planned_chain(sidecar: &mut RecoverySidecar) -> &mut Vec<StagedTransactionIdentity> {
    match &mut sidecar.protocol_v4.as_mut().unwrap().effects[0].kind {
        RecoveryBranchMergeEffectKind::MultiCommitHead {
            planned_transactions,
            ..
        } => planned_transactions,
        _ => panic!("first effect must be multi-commit"),
    }
}

#[test]
fn branch_merge_v9_arms_multi_commit_ref_only_and_pointer_slots() {
    let root = "test-graph";
    let mut sidecar = merge_sidecar();
    bind_sidecar_pins_to_root(&mut sidecar, root);
    assert_eq!(
        sidecar.schema_version,
        IDENTITY_AWARE_SIDECAR_SCHEMA_VERSION
    );
    assert!(sidecar.protocol_v3.is_none());
    assert_eq!(
        sidecar.protocol_v4.as_ref().unwrap().effect_phase,
        RecoveryEffectPhase::Armed
    );

    let mut non_sequential = sidecar.replicate();
    planned_chain(&mut non_sequential)[1].read_version = 9;
    let error = validate_sidecar_shape("<non-sequential>", &non_sequential).unwrap_err();
    assert!(error.to_text().contains("expected 6"));

    let mut oversized = sidecar.replicate();
    *planned_chain(&mut oversized) = (0..=MAX_BRANCH_MERGE_DATA_TRANSACTIONS)
        .map(|offset| transaction(5 + offset, &format!("merge-person-{offset}")))
        .collect();
    let error = validate_sidecar_shape("<oversized-chain>", &oversized).unwrap_err();
    assert!(
        error
            .to_text()
            .contains("exceeding the recovery-safe limit of 1024"),
        "unexpected oversized-chain error: {}",
        error.to_text()
    );

    let mut mismatched_slot = sidecar.replicate();
    mismatched_slot
        .protocol_v4
        .as_mut()
        .unwrap()
        .intended_delta
        .table_updates[0]
        .expected_version = 4;
    let error = validate_sidecar_shape("<mismatched-slot>", &mismatched_slot).unwrap_err();
    assert!(error
        .to_text()
        .contains("does not match its physical table pin"));

    prepare_sidecar_write(root, &sidecar).unwrap();

    let listed = list_sidecars(root, vec![stored(root, &sidecar)]).unwrap();
    assert_eq!(listed.len(), 1);
    assert_eq!(
        listed[0].schema_version,
        IDENTITY_AWARE_SIDECAR_SCHEMA_VERSION
    );
}

#[test]
fn parse_sidecar_refuses_v3_without_protocol_payload() {
    let mut sidecar = occ_sidecar();
    sidecar.protocol_v3 = None;
    let error = parse_sidecar("memory://graph/__recovery/op.json", body(&sidecar)).unwrap_err();
    assert!(error.to_text().contains("missing required protocol_v3"));
}

#[test]
fn parse_sidecar_refuses_mutation_with_multiple_writer_protocols() {
    let mut sidecar = occ_sidecar();
    let protocol_v3 = sidecar.protocol_v3.as_ref().unwrap();
    sidecar.protocol_v7 = Some(RecoveryProtocolV7 {
        authority: protocol_v3.authority.replicate(),
        lineage: protocol_v3.lineage.replicate(),
        rollback_graph_commit_id: "01H000000000000000000000BC".to_string(),
        rollback_audit_outcomes: None,
        target_schema_ir_hash: "foreign-schema-payload".to_string(),
        effect_phase: RecoveryEffectPhase::Armed,
        effects: Vec::new(),
        intended_delta: empty_delta(),
    });

    let error = parse_sidecar(
        "memory://graph/__recovery/multi-protocol.json",
        body(&sidecar),
    )
    .expect_err("a v9 Mutation must not dispatch through a foreign payload");
    assert!(
        error
            .to_text()
            .contains("must carry only the protocol_v3 writer payload"),
        "unexpected malformed-sidecar error: {}",
        error.to_text()
    );
}

#[test]
fn identity_aware_sidecar_refuses_foreign_graph_root() {
    let root = "own-graph";
    let sidecar = occ_sidecar();
    let error = list_sidecars(root, vec![stored(root, &sidecar)])
        .expect_err("v9 recovery must never accept another graph's canonical table URI");
    assert!(
        error.to_text().contains("foreign or non-canonical URI"),
        "unexpected foreign-root error: {}",
        error.to_text()
    );

    let legacy = new_unvalidated_sidecar(
        LEGACY_SIDECAR_SCHEMA_VERSION,
        SidecarKind::Optimize,
        &FreshIds::generate(),
        None,
        None,
        vec![make_pin("node:Person", "memory://foreign", 5, 6)],
    );
    assert_eq!(
        list_sidecars(root, vec![stored(root, &legacy)]).unwrap().len(),
        1,
        "legacy sidecars retain their historical path interpretation"
    );
}

#[test]
fn rollback_audit_plan_is_an_explicit_unique_subset_of_pins() {
    let mut empty = occ_sidecar();
    empty.protocol_v3.as_mut().unwrap().rollback_audit_outcomes = Some(Vec::new());
    let parsed = parse_sidecar("memory://graph/__recovery/empty.json", body(&empty)).unwrap();
    assert_eq!(
        parsed.protocol_v3.unwrap().rollback_audit_outcomes,
        Some(Vec::new()),
        "Some(empty) must remain distinguishable from an unprepared None plan"
    );

    let mut duplicate = occ_sidecar();
    duplicate
        .protocol_v3
        .as_mut()
        .unwrap()
        .rollback_audit_outcomes = Some(vec![
        TableOutcome {
            table_key: "node:Person".to_string(),
            from_version: 6,
            to_version: 5,
        },
        TableOutcome {
            table_key: "node:Person".to_string(),
            from_version: 7,
            to_version: 5,
        },
    ]);
    let duplicate_error = parse_sidecar(
        "memory://graph/__recovery/duplicate.json",
        body(&duplicate),
    )
    .unwrap_err();
    assert!(duplicate_error.to_text().contains("unique subset"));

    let mut foreign = occ_sidecar();
    foreign
        .protocol_v3
        .as_mut()
        .unwrap()
        .rollback_audit_outcomes = Some(vec![TableOutcome {
        table_key: "node:Foreign".to_string(),
        from_version: 2,
        to_version: 1,
    }]);
    let foreign_error =
        parse_sidecar("memory://graph/__recovery/foreign.json", body(&foreign)).unwrap_err();
    assert!(foreign_error.to_text().contains("unique subset"));
}

#[test]
fn parse_sidecar_refuses_future_but_accepts_older_schema_version() {
    let record = |version: u32| {
        let mut sidecar = new_unvalidated_sidecar(
            version,
            SidecarKind::BranchMerge,
            &FreshIds {
                operation_id: "01H000000000000000000000XX".to_string(),
                started_at: "0".to_string(),
                rollback_graph_commit_id: String::new(),
            },
            None,
            None,
            Vec::new(),
        );
        sidecar.schema_version = version;
        body(&sidecar)
    };
    let err = parse_sidecar("file:///tmp/__recovery/x.json", record(99)).unwrap_err();
    let msg = err.to_text();
    assert!(
        msg.contains("schema_version=99") && msg.contains("newer than the maximum"),
        "expected a future-version refusal, got: {msg}",
    );
    let parsed = parse_sidecar("file:///tmp/__recovery/x.json", record(1))
        .expect("a v1 (older) sidecar must parse, not be refused");
    assert_eq!(parsed.schema_version, 1);
}

#[test]
fn list_sidecars_returns_empty_when_dir_missing() {
    let result = list_sidecars("file:///tmp/graph", Vec::new()).unwrap();
    assert!(result.is_empty());
}

#[test]
fn write_then_list_then_delete_round_trip() {
    let root = "file:///tmp/graph/";
    let mut sidecar = new_optimize_sidecar_v9(vec![make_pin(
        "node:Person",
        "file:///tmp/x.lance",
        5,
        6,
    )])
    .unwrap();
    bind_sidecar_pins_to_root(&mut sidecar, root);
    let handle = prepare_sidecar_write(root, &sidecar).unwrap();
    assert_eq!(handle.operation_id, sidecar.operation_id);
    assert_eq!(
        handle.sidecar_uri,
        format!("file:///tmp/graph/__recovery/{}.json", sidecar.operation_id)
    );
    let listed = list_sidecars(root, vec![stored(root, &sidecar)]).unwrap();
    assert_eq!(listed, vec![sidecar]);
    assert!(list_sidecars(root, Vec::new()).unwrap().is_empty());
}

#[test]
fn list_sidecars_skips_non_json_files() {
    let uris = order_sidecar_uris(vec![
        "root/__recovery/noise".to_string(),
        "root/__recovery/.DS_Store".to_string(),
        "root/__recovery/op.json".to_string(),
    ]);
    assert_eq!(uris, vec!["root/__recovery/op.json".to_string()]);
}

#[test]
fn list_sidecars_returns_deterministic_order() {
    let name = |id: &str| sidecar_uri("root", id);
    let uris = order_sidecar_uris(vec![
        name("01H000000000000000000000ZZ"),
        name("01H000000000000000000000MM"),
        name("01H000000000000000000000AA"),
    ]);
    assert_eq!(
        uris,
        vec![
            name("01H000000000000000000000AA"),
            name("01H000000000000000000000MM"),
            name("01H000000000000000000000ZZ"),
        ]
    );
}

#[test]
fn a_fresh_sidecar_has_canonical_ids() {
    let ids = FreshIds::generate();
    assert_eq!(ids.operation_id.len(), 26);
    assert_eq!(ids.rollback_graph_commit_id.len(), 26);
    assert_ne!(ids.operation_id, ids.rollback_graph_commit_id);
    assert!(ids.started_at.parse::<u128>().unwrap() > 1_600_000_000_000_000);
}

#[test]
fn the_recovery_directory_ignores_slashes_behind_the_root() {
    assert_eq!(recovery_dir_uri("s3://bucket/graph//"), "s3://bucket/graph/__recovery");
    assert_eq!(
        sidecar_uri("s3://bucket/graph/", "op"),
        "s3://bucket/graph/__recovery/op.json"
    );
}

#[test]
fn a_malformed_sidecar_is_never_stored() {
    let mut sidecar = occ_sidecar();
    sidecar.protocol_v3 = None;
    let error = prepare_sidecar_write("memory://test-graph", &sidecar).unwrap_err();
    assert!(error.to_text().contains("missing required protocol_v3"));
    let foreign = occ_sidecar();
    let error = prepare_sidecar_write("memory://other-graph", &foreign).unwrap_err();
    assert!(error.to_text().contains("foreign or non-canonical URI"));
    prepare_sidecar_write("memory://test-graph", &foreign).unwrap();
}

#[test]
fn an_unreadable_record_stops_a_sweep_and_not_a_read_only_open() {
    let root = "memory://test-graph";
    let good = occ_sidecar();
    let broken = || StoredSidecar {
        uri: sidecar_uri(root, "broken"),
        body: SidecarBody {
            schema_version: Err("expected value at line 1 column 1".to_string()),
            sidecar: Err("expected value at line 1 column 1".to_string()),
        },
    };
    let error = list_sidecars(root, vec![stored(root, &good), broken()]).unwrap_err();
    assert!(error.to_text().contains("is not valid JSON"));
    let (readable, failures) =
        list_parseable_sidecars_for_read_only(root, vec![broken(), stored(root, &good)]);
    assert_eq!(readable, vec![good]);
    assert_eq!(failures.len(), 1);
    assert_eq!(failures[0].0, sidecar_uri(root, "broken"));
    assert!(failures[0].1.contains("is not valid JSON"));
}

#[test]
fn a_record_that_asks_for_other_gates_is_refused() {
    let root = "memory://test-graph";
    let listed = occ_sidecar();
    assert_eq!(reread_sidecar_under_gates(root, &listed, None).unwrap(), None);
    let again = reread_sidecar_under_gates(root, &listed, Some(body(&listed))).unwrap();
    assert_eq!(again, Some(listed.replicate()));
    let mut moved = listed.replicate();
    moved.writer_kind = SidecarKind::Load;
    let error = reread_sidecar_under_gates(root, &listed, Some(body(&moved))).unwrap_err();
    assert!(error
        .to_text()
        .contains("changed its coordination keys while recovery waited for gates"));
}

#[test]
fn a_newer_generation_names_both_versions() {
    let error = SidecarSchemaError {
        sidecar_uri: "root/__recovery/x.json".to_string(),
        found_version: 10,
        max_supported_version: 9,
    };
    let text = error.to_text();
    assert_eq!(
        text,
        "recovery sidecar at 'root/__recovery/x.json' declares schema_version=10, newer than \
         the maximum this binary supports (schema_version=9); refusing to interpret — upgrade \
         omnigraph or remove the sidecar with operator review"
    );
    assert!(error.into_error().to_text().contains(&text));
}

#[test]
fn a_record_whose_fields_do_not_decode_is_refused() {
    let error = admit_sidecar(
        "root",
        "root/__recovery/x.json",
        SidecarBody {
            schema_version: Ok(9),
            sidecar: Err("unknown variant `Compact`".to_string()),
        },
    )
    .unwrap_err();
    assert!(error
        .to_text()
        .contains("failed to deserialize: unknown variant `Compact`"));
}

#[test]
fn exactness_is_a_matter_of_payload() {
    assert!(has_exact_protocol(&occ_sidecar()));
    assert!(has_exact_protocol(&merge_sidecar()));
    let loose = new_ensure_indices_sidecar_v6(
        None,
        vec![make_pin("node:Person", "irrelevant", 5, 6)],
    )
    .unwrap();
    assert!(!has_exact_protocol(&loose));
}

#[test]
fn a_chain_uses_each_transaction_once() {
    let pin = make_pin("node:Person", "irrelevant", 5, 6);
    let mut seen = Vec::new();
    let chain = vec![transaction(5, "a"), transaction(6, "b")];
    assert_eq!(
        validate_branch_merge_transaction_chain(&pin, &chain, &mut seen),
        Ok(7)
    );
    assert_eq!(seen, vec!["a".to_string(), "b".to_string()]);
    let again = vec![transaction(5, "b")];
    let error = validate_branch_merge_transaction_chain(&pin, &again, &mut seen).unwrap_err();
    assert!(error.contains("empty or duplicate identity at offset 0"));
    let empty = Vec::new();
    let error = validate_branch_merge_transaction_chain(&pin, &empty, &mut seen).unwrap_err();
    assert!(error.contains("empty planned transaction chain"));
    assert_eq!(seen, vec!["a".to_string(), "b".to_string()]);
}

#[test]
fn a_refused_chain_leaves_the_ids_that_were_looked_at() {
    let pin = make_pin("node:Person", "irrelevant", 5, 6);
    let mut seen = Vec::new();
    let astray = vec![transaction(5, "a"), transaction(7, "b"), transaction(7, "c")];
    let error = validate_branch_merge_transaction_chain(&pin, &astray, &mut seen).unwrap_err();
    assert!(error.contains("reads version 7 at offset 1, expected 6"));
    assert_eq!(seen, vec!["a".to_string(), "b".to_string()]);
    let twice = vec![transaction(5, "c"), transaction(6, "a")];
    let error = validate_branch_merge_transaction_chain(&pin, &twice, &mut seen).unwrap_err();
    assert!(error.contains("empty or duplicate identity at offset 1"));
    assert_eq!(seen, vec!["a".to_string(), "b".to_string(), "c".to_string()]);
}

#[test]
fn an_attempt_needs_one_transaction_for_each_table() {
    let error = new_occ_sidecar_v9(
        SidecarKind::Load,
        None,
        None,
        vec![make_pin("node:Person", "irrelevant", 5, 6)],
        occ_sidecar().protocol_v3.unwrap().authority,
        RecoveryLineageIntent {
            graph_commit_id: "01H000000000000000000000BB".to_string(),
            branch: None,
            actor_id: None,
            merged_parent_commit_id: None,
            created_at: 1,
        },
        &IdentityMap::new(),
    )
    .unwrap_err();
    assert!(error
        .to_text()
        .contains("requires at least one pin and exactly one planned transaction"));
    let mut planned = IdentityMap::new();
    planned.set(test_identity("node:Person"), transaction(5, "t"));
    let error = new_occ_sidecar_v9(
        SidecarKind::Optimize,
        None,
        None,
        vec![make_pin("node:Person", "irrelevant", 5, 6)],
        occ_sidecar().protocol_v3.unwrap().authority,
        RecoveryLineageIntent {
            graph_commit_id: "01H000000000000000000000BB".to_string(),
            branch: None,
            actor_id: None,
            merged_parent_commit_id: None,
            created_at: 1,
        },
        &planned,
    )
    .unwrap_err();
    assert!(error
        .to_text()
        .contains("only supports Mutation/Load, found Optimize"));
}

#[test]
fn identities_have_no_zero() {
    assert!(TableIdentity::new(0, 1).is_err());
    assert!(TableIdentity::new(1, 0).is_err());
    assert!(TableIdentity::new(1, 1).is_ok());
    assert!(table_path_for_identity("Person", test_identity("node:Person")).is_err());
}
