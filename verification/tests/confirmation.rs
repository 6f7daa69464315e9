//! Confirming what an attempt reached.

use omnigraph::arm::{
    new_branch_merge_sidecar_v9, new_ensure_indices_sidecar_v9, new_occ_sidecar_v9,
    new_optimize_sidecar_v9, new_schema_apply_sidecar_v9,
};
use omnigraph::classify::{classify_table_observation, TableClassification};
use omnigraph::confirm::branch_merge::confirm_branch_merge_sidecar_v9;
use omnigraph::confirm::ensure_indices::confirm_ensure_indices_sidecar_v9;
use omnigraph::confirm::mutation_load::confirm_occ_sidecar_v9;
use omnigraph::confirm::schema_apply::confirm_schema_apply_sidecar_v9;
use omnigraph::history::{CommittedTransaction, HeadReading, TableHistory, TableOperation};
use omnigraph::identity::{table_path_for_identity, IdentityMap, TableIdentity};
use omnigraph::process::indices::TargetRef;
use omnigraph::publish::SubTableUpdate;
use omnigraph::shape::validate::validate_sidecar_shape;
use omnigraph::sidecar::{
    BranchIdentifier, RecoveryAuthorityToken, RecoveryBranchMergeEffect,
    RecoveryBranchMergeEffectKind, RecoveryEffectPhase, RecoveryLineageIntent,
    RecoveryManifestDelta, RecoverySchemaApplyEffect, RecoverySchemaApplyEffectKind,
    RecoverySidecar, RecoveryTableUpdateSlot, SidecarKind, SidecarTablePin,
    StagedTransactionIdentity, TableVersionMetadata, SIDECAR_SCHEMA_VERSION,
};
use omnigraph::store::{confirm_sidecar_phase_b_v9, reread_sidecar_under_gates, SidecarBody};
use omnigraph::value::Replicate;

const ROOT: &str = "memory://test-graph";

fn test_identity(table_key: &str) -> TableIdentity {
    match table_key {
        "node:Person" => TableIdentity::new(1, 11).unwrap(),
        "node:Company" => TableIdentity::new(2, 22).unwrap(),
        "edge:WorksAt" => TableIdentity::new(3, 33).unwrap(),
        other => panic!("test table '{other}' has no explicit identity"),
    }
}

fn make_pin(table_key: &str, expected: u64, post: u64) -> SidecarTablePin {
    let identity = test_identity(table_key);
    SidecarTablePin {
        identity,
        table_key: table_key.to_string(),
        table_path: format!(
            "memory://test-graph/{}",
            table_path_for_identity(table_key, identity).unwrap()
        ),
        expected_version: expected,
        post_commit_pin: post,
        confirmed_version: None,
        table_branch: None,
    }
}

fn transaction(read_version: u64, uuid: &str) -> StagedTransactionIdentity {
    StagedTransactionIdentity {
        read_version,
        uuid: uuid.to_string(),
    }
}

fn authority(branch_identifier: BranchIdentifier) -> RecoveryAuthorityToken {
    RecoveryAuthorityToken {
        branch_identifier,
        graph_head: Some("01H000000000000000000000AA".to_string()),
        schema_identity_domain: "domain-a".to_string(),
        schema_ir_hash: "schema-hash".to_string(),
        schema_identity_version: 1,
    }
}

fn lineage(branch: Option<&str>, merged: Option<&str>) -> RecoveryLineageIntent {
    RecoveryLineageIntent {
        graph_commit_id: "01H000000000000000000000BB".to_string(),
        branch: branch.map(|name| name.to_string()),
        actor_id: Some("act-alice".to_string()),
        merged_parent_commit_id: merged.map(|name| name.to_string()),
        created_at: 123,
    }
}

fn slot(table_key: &str, expected_version: u64, branch: Option<&str>) -> RecoveryTableUpdateSlot {
    RecoveryTableUpdateSlot {
        identity: test_identity(table_key),
        table_key: table_key.to_string(),
        expected_version,
        table_branch: branch.map(|name| name.to_string()),
        confirmed: None,
    }
}

fn update(table_key: &str, table_version: u64, branch: Option<&str>) -> SubTableUpdate {
    SubTableUpdate {
        identity: test_identity(table_key),
        table_key: table_key.to_string(),
        table_version,
        table_branch: branch.map(|name| name.to_string()),
        row_count: 7,
        version_metadata: TableVersionMetadata {
            manifest_path: format!("nodes/person/_versions/{table_version}.manifest"),
            manifest_size: Some(42),
            e_tag: Some("etag-6".to_string()),
            naming_scheme: Some("V2".to_string()),
        },
    }
}

fn committed(list: Vec<(&str, StagedTransactionIdentity)>) -> IdentityMap<StagedTransactionIdentity> {
    let mut map = IdentityMap::new();
    for (table_key, transaction) in list {
        map.set(test_identity(table_key), transaction);
    }
    map
}

fn commit(identity: StagedTransactionIdentity, operation: TableOperation) -> CommittedTransaction {
    CommittedTransaction {
        identity,
        operation,
        description: format!("{operation:?}"),
    }
}

fn occ_sidecar() -> RecoverySidecar {
    new_occ_sidecar_v9(
        SidecarKind::Mutation,
        None,
        Some("act-alice".to_string()),
        vec![make_pin("node:Person", 5, 6)],
        authority(BranchIdentifier::main()),
        lineage(None, None),
        &committed(vec![("node:Person", transaction(5, "planned-transaction"))]),
    )
    .unwrap()
}

#[test]
fn occ_confirmation_binds_exact_delta_and_rejects_foreign_identity() {
    let sidecar = occ_sidecar();
    let updates = vec![update("node:Person", 6, None)];
    let exact = committed(vec![("node:Person", transaction(5, "planned-transaction"))]);
    let rebased = committed(vec![("node:Person", transaction(6, "planned-transaction"))]);
    let error = confirm_occ_sidecar_v9(ROOT, &sidecar, &updates, &rebased).unwrap_err();
    assert!(error.to_text().contains("leaving recovery Armed"));
    assert_eq!(
        sidecar.protocol_v3.as_ref().unwrap().effect_phase,
        RecoveryEffectPhase::Armed
    );
    let sidecar = confirm_occ_sidecar_v9(ROOT, &sidecar, &updates, &exact).unwrap();

    let protocol = sidecar.protocol_v3.as_ref().unwrap();
    assert_eq!(protocol.effect_phase, RecoveryEffectPhase::EffectsConfirmed);
    assert_eq!(
        protocol.intended_delta.table_updates[0]
            .confirmed
            .as_ref()
            .unwrap()
            .row_count,
        7
    );
    let pin = &sidecar.tables[0];
    assert_eq!(
        classify_table_observation(
            pin,
            6,
            &Some(transaction(5, "planned-transaction")),
            5,
            SidecarKind::Mutation,
            SIDECAR_SCHEMA_VERSION,
            &sidecar.protocol_v3,
        ),
        TableClassification::RolledPastExpected
    );
    assert_eq!(
        classify_table_observation(
            pin,
            6,
            &Some(transaction(5, "foreign-transaction")),
            5,
            SidecarKind::Mutation,
            SIDECAR_SCHEMA_VERSION,
            &sidecar.protocol_v3,
        ),
        TableClassification::UnexpectedEffectIdentity
    );
}

#[test]
fn exact_semantics_tell_one_step_from_several() {
    let updates = vec![update("node:Person", 6, None)];
    let exact = committed(vec![("node:Person", transaction(5, "planned-transaction"))]);
    let sidecar = confirm_occ_sidecar_v9(ROOT, &occ_sidecar(), &updates, &exact).unwrap();
    let class = |pin: &SidecarTablePin, head, manifest_pinned| {
        classify_table_observation(
            pin,
            head,
            &Some(transaction(5, "planned-transaction")),
            manifest_pinned,
            SidecarKind::Mutation,
            SIDECAR_SCHEMA_VERSION,
            &sidecar.protocol_v3,
        )
    };
    let pin = &sidecar.tables[0];
    assert_eq!(class(pin, 6, 5), TableClassification::RolledPastExpected);
    assert_eq!(class(pin, 9, 6), TableClassification::UnexpectedMultistep);
    assert_eq!(class(pin, 7, 6), TableClassification::UnexpectedAtP1);
    assert_eq!(class(pin, 7, 5), TableClassification::UnexpectedMultistep);
    let mut diverged = pin.replicate();
    diverged.confirmed_version = Some(7);
    assert_eq!(class(&diverged, 6, 5), TableClassification::UnexpectedAtP1);
}

#[test]
fn confirm_sidecar_phase_b_errors_when_pin_missing_from_updates() {
    let mut sidecar = new_optimize_sidecar_v9(vec![make_pin("node:Person", 5, 6)]).unwrap();
    let err = confirm_sidecar_phase_b_v9(&mut sidecar, &IdentityMap::new())
        .expect_err("a pinned table with no achieved version must be a loud error");
    assert!(
        err.to_text().contains("pins and publish updates diverged"),
        "expected a pin/updates divergence error, got: {}",
        err.to_text(),
    );
    let mut reached = IdentityMap::new();
    reached.set(test_identity("node:Person"), 9);
    confirm_sidecar_phase_b_v9(&mut sidecar, &reached).unwrap();
    assert_eq!(sidecar.tables[0].confirmed_version, Some(9));
}

#[test]
fn pins_before_a_missing_version_are_stamped() {
    let mut sidecar = new_optimize_sidecar_v9(vec![
        make_pin("node:Person", 5, 6),
        make_pin("node:Company", 5, 6),
        make_pin("edge:WorksAt", 5, 6),
    ])
    .unwrap();
    let mut reached = IdentityMap::new();
    reached.set(test_identity("node:Person"), 9);
    reached.set(test_identity("edge:WorksAt"), 8);
    let before: Vec<_> = sidecar.tables.iter().map(|pin| pin.confirmed_version).collect();
    assert!(confirm_sidecar_phase_b_v9(&mut sidecar, &reached).is_err());
    assert_eq!(sidecar.tables[0].confirmed_version, Some(9));
    assert_eq!(sidecar.tables[1].confirmed_version, before[1]);
    assert_eq!(sidecar.tables[2].confirmed_version, before[2]);
}

#[test]
fn a_sidecar_is_confirmed_once_and_keeps_its_gates() {
    let armed = occ_sidecar();
    let updates = vec![update("node:Person", 6, None)];
    let exact = committed(vec![("node:Person", transaction(5, "planned-transaction"))]);
    let confirmed = confirm_occ_sidecar_v9(ROOT, &armed, &updates, &exact).unwrap();
    let error = confirm_occ_sidecar_v9(ROOT, &confirmed, &updates, &exact).unwrap_err();
    assert!(error.to_text().contains("is already EffectsConfirmed"));
    let record = SidecarBody {
        schema_version: Ok(confirmed.schema_version),
        sidecar: Ok(confirmed.replicate()),
    };
    assert_eq!(
        reread_sidecar_under_gates(ROOT, &armed, Some(record)).unwrap(),
        Some(confirmed)
    );
}

#[test]
fn a_confirmation_covers_exactly_the_planned_tables() {
    let armed = occ_sidecar();
    let exact = committed(vec![("node:Person", transaction(5, "planned-transaction"))]);
    let error = confirm_occ_sidecar_v9(ROOT, &armed, &Vec::new(), &exact).unwrap_err();
    assert!(error
        .to_text()
        .contains("confirmation key set differs from its planned effects"));
    let wrong = vec![update("node:Person", 7, None)];
    let error = confirm_occ_sidecar_v9(ROOT, &armed, &wrong, &exact).unwrap_err();
    assert!(error
        .to_text()
        .contains("achieved version/branch (7, None), planned (6, None); leaving recovery Armed"));
    let elsewhere = vec![update("node:Person", 6, Some("other \"x\""))];
    let error = confirm_occ_sidecar_v9(ROOT, &armed, &elsewhere, &exact).unwrap_err();
    assert!(error.to_text().contains(r#"(6, Some("other \"x\""))"#));
}

#[test]
fn a_foreign_transaction_is_quoted_in_the_refusal() {
    let armed = occ_sidecar();
    let updates = vec![update("node:Person", 6, None)];
    let foreign = committed(vec![("node:Person", transaction(5, "say \"hi\""))]);
    let error = confirm_occ_sidecar_v9(ROOT, &armed, &updates, &foreign).unwrap_err();
    assert!(error.to_text().contains(
        r#"StagedTransactionIdentity { read_version: 5, uuid: "say \"hi\"" }"#
    ));
}

#[test]
fn a_schema_apply_is_confirmed_table_by_table() {
    let effects = vec![RecoverySchemaApplyEffect {
        identity: test_identity("node:Person"),
        table_key: "node:Person".to_string(),
        kind: RecoverySchemaApplyEffectKind::ExistingOverwrite {
            planned_transaction: transaction(5, "rewrite"),
            confirmed_transaction: None,
        },
    }];
    let armed = new_schema_apply_sidecar_v9(
        Some("act-alice".to_string()),
        vec![make_pin("node:Person", 5, 6)],
        authority(BranchIdentifier::main()),
        lineage(None, None),
        effects,
        RecoveryManifestDelta {
            table_updates: vec![slot("node:Person", 5, None)],
            registrations: Vec::new(),
            renames: Vec::new(),
            tombstones: Vec::new(),
        },
        "target-schema".to_string(),
    )
    .unwrap();
    let updates = vec![update("node:Person", 6, None)];
    let foreign = committed(vec![("node:Person", transaction(5, "foreign"))]);
    let error = confirm_schema_apply_sidecar_v9(ROOT, &armed, &updates, &foreign).unwrap_err();
    assert!(error
        .to_text()
        .contains("achieved transaction/version/branch outside its exact plan"));
    let exact = committed(vec![("node:Person", transaction(5, "rewrite"))]);
    let confirmed = confirm_schema_apply_sidecar_v9(ROOT, &armed, &updates, &exact).unwrap();
    let payload = confirmed.protocol_v7.as_ref().unwrap();
    assert_eq!(payload.effect_phase, RecoveryEffectPhase::EffectsConfirmed);
    assert_eq!(
        payload.effects[0].kind.confirmed_transaction(),
        Some(&transaction(5, "rewrite"))
    );
    assert_eq!(confirmed.tables[0].confirmed_version, Some(6));
    validate_sidecar_shape("<confirmed>", &confirmed).unwrap();
    let error = confirm_schema_apply_sidecar_v9(ROOT, &confirmed, &updates, &exact).unwrap_err();
    assert!(error.to_text().contains("is already EffectsConfirmed"));
}

fn target(
    parent_version: Option<u64>,
    identifier: BranchIdentifier,
    first_version: u64,
    commits: Vec<CommittedTransaction>,
) -> TargetRef {
    TargetRef {
        parent_version,
        branch_identifier: identifier,
        head: HeadReading {
            version: first_version + commits.len() as u64 - 1,
            history: TableHistory {
                first_version,
                transactions: commits.into_iter().map(Some).collect(),
            },
        },
    }
}

#[test]
fn an_index_run_confirms_its_forks() {
    let mut pin = make_pin("node:Person", 5, 6);
    pin.table_branch = Some("feature".to_string());
    let mut forks = IdentityMap::new();
    forks.set(test_identity("node:Person"), 5);
    let planned = committed(vec![("node:Person", transaction(5, "index"))]);
    let fork = BranchIdentifier {
        version_mapping: vec![(5, "fork".to_string())],
    };
    let armed = new_ensure_indices_sidecar_v9(
        Some("feature".to_string()),
        Some("act-alice".to_string()),
        vec![pin],
        authority(BranchIdentifier::main()),
        lineage(Some("feature"), None),
        &planned,
        &forks,
    )
    .unwrap();
    let updates = vec![update("node:Person", 6, Some("feature"))];
    let mut refs = IdentityMap::new();
    refs.set(test_identity("node:Person"), fork.replicate());
    let at_head = |operation| {
        vec![Some(target(
            Some(5),
            fork.replicate(),
            6,
            vec![commit(transaction(5, "index"), operation)],
        ))]
    };
    let error = confirm_ensure_indices_sidecar_v9(
        ROOT,
        &armed,
        &updates,
        &planned,
        &refs,
        &at_head(TableOperation::Other),
    )
    .unwrap_err();
    assert!(error
        .to_text()
        .contains("does not have its exact CreateIndex operation"));
    let error = confirm_ensure_indices_sidecar_v9(
        ROOT,
        &armed,
        &updates,
        &planned,
        &refs,
        &vec![None],
    )
    .unwrap_err();
    assert!(error.to_text().contains("cannot confirm missing target ref"));
    let error = confirm_ensure_indices_sidecar_v9(
        ROOT,
        &armed,
        &updates,
        &planned,
        &IdentityMap::new(),
        &at_head(TableOperation::CreateIndex),
    )
    .unwrap_err();
    assert!(error
        .to_text()
        .contains("confirmation key set differs from its exact plan"));
    let confirmed = confirm_ensure_indices_sidecar_v9(
        ROOT,
        &armed,
        &updates,
        &planned,
        &refs,
        &at_head(TableOperation::CreateIndex),
    )
    .unwrap();
    let effect = &confirmed.protocol_v8.as_ref().unwrap().effects[0];
    assert_eq!(effect.confirmed_branch_identifier, Some(fork.replicate()));
    assert_eq!(effect.confirmed_transaction, Some(transaction(5, "index")));
}

#[test]
fn a_merge_confirms_chains_forks_and_pointers() {
    let mut multi_pin = make_pin("node:Person", 5, 6);
    multi_pin.table_branch = Some("target".to_string());
    let mut ref_pin = make_pin("node:Company", 4, 8);
    ref_pin.table_branch = Some("target".to_string());
    let person_fork = BranchIdentifier {
        version_mapping: vec![(5, "person".to_string())],
    };
    let company_fork = BranchIdentifier {
        version_mapping: vec![(8, "company".to_string())],
    };
    let effects = vec![
        RecoveryBranchMergeEffect {
            identity: multi_pin.identity,
            table_key: "node:Person".to_string(),
            kind: RecoveryBranchMergeEffectKind::MultiCommitHead {
                source_fork_version: Some(5),
                planned_transactions: vec![transaction(5, "append"), transaction(6, "delete")],
                confirmed_version: None,
                confirmed_branch_identifier: None,
            },
        },
        RecoveryBranchMergeEffect {
            identity: ref_pin.identity,
            table_key: "node:Company".to_string(),
            kind: RecoveryBranchMergeEffectKind::RefOnlyFork {
                source_version: 8,
                confirmed_branch_identifier: None,
            },
        },
    ];
    let armed = new_branch_merge_sidecar_v9(
        Some("target".to_string()),
        Some("act-alice".to_string()),
        vec![multi_pin, ref_pin],
        authority(BranchIdentifier::main()),
        lineage(Some("target"), Some("01H000000000000000000000S1")),
        effects,
        RecoveryManifestDelta {
            table_updates: vec![
                slot("node:Person", 5, Some("target")),
                slot("node:Company", 4, Some("target")),
                slot("edge:WorksAt", 2, None),
            ],
            registrations: Vec::new(),
            renames: Vec::new(),
            tombstones: Vec::new(),
        },
    )
    .unwrap();
    let updates = vec![
        update("node:Person", 7, Some("target")),
        update("node:Company", 8, Some("target")),
        update("edge:WorksAt", 3, None),
    ];
    let mut refs = IdentityMap::new();
    refs.set(test_identity("node:Person"), person_fork.replicate());
    refs.set(test_identity("node:Company"), company_fork.replicate());
    let targets = |second: &str| {
        vec![
            Some(target(
                Some(5),
                person_fork.replicate(),
                6,
                vec![
                    commit(transaction(5, "append"), TableOperation::Other),
                    commit(transaction(6, second), TableOperation::Other),
                ],
            )),
            Some(target(
                Some(8),
                company_fork.replicate(),
                8,
                vec![commit(transaction(7, "older"), TableOperation::Other)],
            )),
        ]
    };
    let error =
        confirm_branch_merge_sidecar_v9(ROOT, &armed, &updates, &refs, &targets("foreign"))
            .unwrap_err();
    assert!(error
        .to_text()
        .contains("cannot confirm unproven transaction chain"));
    let confirmed =
        confirm_branch_merge_sidecar_v9(ROOT, &armed, &updates, &refs, &targets("delete"))
            .unwrap();
    let payload = confirmed.protocol_v4.as_ref().unwrap();
    assert_eq!(payload.effect_phase, RecoveryEffectPhase::EffectsConfirmed);
    assert_eq!(
        payload.effects[0].kind,
        RecoveryBranchMergeEffectKind::MultiCommitHead {
            source_fork_version: Some(5),
            planned_transactions: vec![transaction(5, "append"), transaction(6, "delete")],
            confirmed_version: Some(7),
            confirmed_branch_identifier: Some(person_fork.replicate()),
        }
    );
    assert_eq!(
        payload.intended_delta.table_updates[2]
            .confirmed
            .as_ref()
            .unwrap()
            .table_version,
        3
    );
    let short = vec![
        update("node:Person", 6, Some("target")),
        update("node:Company", 8, Some("target")),
        update("edge:WorksAt", 3, None),
    ];
    let error = confirm_branch_merge_sidecar_v9(ROOT, &armed, &short, &refs, &targets("delete"))
        .unwrap_err();
    assert!(error.to_text().contains("observed HEAD 7, achieved update says 6"));
    let fewer = vec![update("node:Person", 7, Some("target"))];
    let error = confirm_branch_merge_sidecar_v9(ROOT, &armed, &fewer, &refs, &targets("delete"))
        .unwrap_err();
    assert!(error
        .to_text()
        .contains("confirmation updates differ from its complete intended delta"));
}
