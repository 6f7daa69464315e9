//! What recovery does with a pending sidecar.

use omnigraph::arm::{
    new_branch_merge_sidecar_v9, new_ensure_indices_sidecar_v6, new_ensure_indices_sidecar_v9,
    new_occ_sidecar_v9, new_optimize_sidecar_v9, new_schema_apply_sidecar_v9,
    new_unvalidated_sidecar, FreshIds,
};
use omnigraph::classify::{
    classify_sidecar_tables, plan_probe, ClassifiedTable, TableClassification,
};
use omnigraph::confirm::mutation_load::confirm_occ_sidecar_v9;
use omnigraph::error::OmniError;
use omnigraph::history::{
    CommittedTransaction, EffectOwnership, HeadReading, TableHistory, TableOperation,
};
use omnigraph::identity::{table_path_for_identity, IdentityMap, TableIdentity};
use omnigraph::outcome::{finalize_visible_v3_outcome, VisibleExactOutcome};
use omnigraph::process::forks::{
    blocked_rollback_error, discard_fork, discards_forks, fork_reclaimed, fork_to_discard,
    BranchContents, BranchListing, ForkStep,
};
use omnigraph::process::general::{
    finalize_effect_free_occ_sidecar, looks_for_exact_outcome, may_be_effect_free, process_sidecar,
    recovery_route, unresolved_conflict, RecoveryRoute, UnresolvedConflict,
};
use omnigraph::process::indices::{
    observe_indices, process_ensure_indices_sidecar_v8, IndexReading, TargetRef,
};
use omnigraph::process::merge::{observe_merge, process_branch_merge_sidecar_v4};
use omnigraph::process::schema::{observe_schema_tables, process_schema_apply_sidecar_v7};
use omnigraph::process::step::{after_publish_error, summarize, ConflictStep, RecoveryStep};
use omnigraph::publish::{PublishedTable, RecoveryKind, SubTableUpdate};
use omnigraph::rollback::{
    collect_restored_changes, has_fixed_rollback_identity, plan_restorations,
    prepare_fixed_rollback_audit_plan, rollback_audit_outcomes, rollback_audit_outcomes_for_plan,
};
use omnigraph::rollforward::{
    converge_or_defer_roll_forward, converged_commit_id, roll_forward_all,
    roll_forward_confirmed_delta, roll_forward_outcomes, sidecar_intent_satisfied, Convergence,
};
use omnigraph::sidecar::{
    BranchIdentifier, RecoveryAuthorityToken, RecoveryBranchMergeEffect,
    RecoveryBranchMergeEffectKind, RecoveryLineageIntent, RecoveryManifestDelta, RecoveryMode,
    RecoverySchemaApplyEffect, RecoverySchemaApplyEffectKind, RecoverySidecar,
    RecoveryTableUpdateSlot, SidecarKind, SidecarTablePin, StagedTransactionIdentity, TableOutcome,
    TableVersionMetadata, LEGACY_SIDECAR_SCHEMA_VERSION,
};
use omnigraph::snapshot::{snapshot_entry_for_pin, Snapshot, SnapshotEntry, SubTableEntry};
use omnigraph::value::Replicate;

const ROOT: &str = "memory://test-graph";

fn test_identity(table_key: &str) -> TableIdentity {
    match table_key {
        "node:Person" => TableIdentity::new(1, 11).unwrap(),
        "node:Company" => TableIdentity::new(2, 22).unwrap(),
        "edge:WorksAt" => TableIdentity::new(3, 33).unwrap(),
        other => panic!("test table '{other}' has no explicit identity"),
    }
}

fn make_pin(table_key: &str, expected: u64, post: u64) -> SidecarTablePin {
    let identity = test_identity(table_key);
    SidecarTablePin {
        identity,
        table_key: table_key.to_string(),
        table_path: format!(
            "memory://test-graph/{}",
            table_path_for_identity(table_key, identity).unwrap()
        ),
        expected_version: expected,
        post_commit_pin: post,
        confirmed_version: None,
        table_branch: None,
    }
}

fn transaction(read_version: u64, uuid: &str) -> StagedTransactionIdentity {
    StagedTransactionIdentity {
        read_version,
        uuid: uuid.to_string(),
    }
}

fn metadata(version: u64) -> TableVersionMetadata {
    TableVersionMetadata {
        manifest_path: format!("_versions/{version}.manifest"),
        manifest_size: None,
        e_tag: None,
        naming_scheme: None,
    }
}

fn snapshot(tables: Vec<(&str, u64)>) -> Snapshot {
    Snapshot {
        entries: tables
            .into_iter()
            .map(|(table_key, version)| SnapshotEntry {
                identity: test_identity(table_key),
                table: SubTableEntry {
                    table_key: table_key.to_string(),
                    table_path: format!("data/{table_key}"),
                    table_version: version,
                    table_branch: None,
                    row_count: 1,
                    version_metadata: metadata(version),
                },
            })
            .collect(),
    }
}

fn authority() -> RecoveryAuthorityToken {
    RecoveryAuthorityToken {
        branch_identifier: BranchIdentifier::main(),
        graph_head: Some("01H000000000000000000000AA".to_string()),
        schema_identity_domain: "domain-a".to_string(),
        schema_ir_hash: "schema-hash".to_string(),
        schema_identity_version: 1,
    }
}

fn lineage(merged: Option<&str>) -> RecoveryLineageIntent {
    RecoveryLineageIntent {
        graph_commit_id: "01H000000000000000000000BB".to_string(),
        branch: None,
        actor_id: None,
        merged_parent_commit_id: merged.map(|id| id.to_string()),
        created_at: 123,
    }
}

fn slot(table_key: &str, expected_version: u64) -> RecoveryTableUpdateSlot {
    RecoveryTableUpdateSlot {
        identity: test_identity(table_key),
        table_key: table_key.to_string(),
        expected_version,
        table_branch: None,
        confirmed: None,
    }
}

fn planned(list: Vec<(&str, StagedTransactionIdentity)>) -> IdentityMap<StagedTransactionIdentity> {
    let mut map = IdentityMap::new();
    for (table_key, transaction) in list {
        map.set(test_identity(table_key), transaction);
    }
    map
}

fn armed() -> RecoverySidecar {
    new_occ_sidecar_v9(
        SidecarKind::Mutation,
        None,
        None,
        vec![make_pin("node:Person", 5, 6), make_pin("node:Company", 2, 3)],
        authority(),
        lineage(None),
        &planned(vec![
            ("node:Person", transaction(5, "person")),
            ("node:Company", transaction(2, "company")),
        ]),
    )
    .unwrap()
}

fn update(table_key: &str, table_version: u64) -> SubTableUpdate {
    SubTableUpdate {
        identity: test_identity(table_key),
        table_key: table_key.to_string(),
        table_version,
        table_branch: None,
        row_count: 4,
        version_metadata: metadata(table_version),
    }
}

fn confirmed() -> RecoverySidecar {
    confirm_occ_sidecar_v9(
        ROOT,
        &armed(),
        &vec![update("node:Person", 6), update("node:Company", 3)],
        &planned(vec![
            ("node:Person", transaction(5, "person")),
            ("node:Company", transaction(2, "company")),
        ]),
    )
    .unwrap()
}

fn head(version: u64, uuid: &str, operation: TableOperation) -> HeadReading {
    HeadReading {
        version,
        history: TableHistory {
            first_version: version,
            transactions: vec![Some(CommittedTransaction {
                identity: transaction(version - 1, uuid),
                operation,
                description: "commit".to_string(),
            })],
        },
    }
}

fn own_heads() -> Vec<Option<HeadReading>> {
    vec![
        Some(head(6, "person", TableOperation::Other)),
        Some(head(3, "company", TableOperation::Other)),
    ]
}

fn live_tables() -> Snapshot {
    snapshot(vec![("node:Person", 5), ("node:Company", 2)])
}

fn state(
    classification: TableClassification,
    pinned: u64,
    head: u64,
    ownership: EffectOwnership,
) -> ClassifiedTable {
    ClassifiedTable {
        classification,
        manifest_pinned: pinned,
        lance_head: head,
        effect_ownership: ownership,
        unpublished_fork: false,
    }
}

fn next(
    sidecar: &RecoverySidecar,
    states: &Vec<ClassifiedTable>,
    live: Option<RecoveryAuthorityToken>,
    mode: RecoveryMode,
) -> RecoveryStep {
    process_sidecar(ROOT, sidecar, states, &live, false, &None, mode)
}

#[test]
fn a_confirmed_attempt_is_finished_in_either_mode() {
    let sidecar = confirmed();
    let states = classify_sidecar_tables(&live_tables(), &sidecar, &own_heads()).unwrap();
    assert_eq!(
        states[0].classification,
        TableClassification::RolledPastExpected
    );
    assert_eq!(
        next(&sidecar, &states, None, RecoveryMode::Full),
        RecoveryStep::ReadLiveAuthority
    );
    for mode in [RecoveryMode::Full, RecoveryMode::RollForwardOnly] {
        assert_eq!(
            next(&sidecar, &states, Some(authority()), mode),
            RecoveryStep::RollForward
        );
    }
}

#[test]
fn an_armed_attempt_is_undone_at_open_and_deferred_while_serving() {
    let sidecar = armed();
    let states = classify_sidecar_tables(&live_tables(), &sidecar, &own_heads()).unwrap();
    assert_eq!(
        next(&sidecar, &states, Some(authority()), RecoveryMode::Full),
        RecoveryStep::RollBack
    );
    assert_eq!(
        next(
            &sidecar,
            &states,
            Some(authority()),
            RecoveryMode::RollForwardOnly
        ),
        RecoveryStep::Defer
    );
}

#[test]
fn an_attempt_without_effects_is_discarded() {
    let sidecar = armed();
    let states = classify_sidecar_tables(
        &live_tables(),
        &sidecar,
        &vec![
            Some(head(5, "before", TableOperation::Other)),
            Some(head(2, "before", TableOperation::Other)),
        ],
    )
    .unwrap();
    assert_eq!(
        next(&sidecar, &states, Some(authority()), RecoveryMode::Full),
        RecoveryStep::DiscardForks
    );
    assert_eq!(may_be_effect_free(&sidecar), Ok(true));
    assert_eq!(may_be_effect_free(&confirmed()), Ok(false));
    assert_eq!(finalize_effect_free_occ_sidecar(&sidecar, &states), Ok(true));
    let moved = classify_sidecar_tables(&live_tables(), &sidecar, &own_heads()).unwrap();
    assert_eq!(finalize_effect_free_occ_sidecar(&sidecar, &moved), Ok(false));
    assert_eq!(
        finalize_effect_free_occ_sidecar(&confirmed(), &states),
        Ok(false)
    );
    let optimize = new_optimize_sidecar_v9(vec![make_pin("node:Person", 5, 6)]).unwrap();
    let error = finalize_effect_free_occ_sidecar(&optimize, &Vec::new()).unwrap_err();
    assert!(error
        .to_text()
        .contains("requires an identity-aware mutation/load sidecar"));
}

#[test]
fn a_recreated_branch_is_left_alone() {
    let sidecar = confirmed();
    let states = classify_sidecar_tables(&live_tables(), &sidecar, &own_heads()).unwrap();
    let mut other = authority();
    other.branch_identifier = BranchIdentifier {
        version_mapping: vec![(1, "again".to_string())],
    };
    match next(&sidecar, &states, Some(other), RecoveryMode::Full) {
        RecoveryStep::Refuse(error) => assert!(error
            .to_text()
            .contains("targets a branch incarnation that was deleted and recreated")),
        step => panic!("expected a refusal, got {step:?}"),
    }
    let mut moved = authority();
    moved.graph_head = Some("elsewhere".to_string());
    assert_eq!(
        next(&sidecar, &states, Some(moved), RecoveryMode::Full),
        RecoveryStep::RollBack
    );
}

#[test]
fn a_broken_invariant_is_left_to_an_operator() {
    let sidecar = new_optimize_sidecar_v9(vec![make_pin("node:Person", 5, 6)]).unwrap();
    let states = vec![state(
        TableClassification::InvariantViolation { observed: 3 },
        5,
        3,
        EffectOwnership::Absent,
    )];
    match next(&sidecar, &states, None, RecoveryMode::Full) {
        RecoveryStep::Refuse(error) => {
            let text = error.to_text();
            assert!(text.contains("has invariant violation; refusing to act"));
            assert!(text.contains("classifications: [InvariantViolation { observed: 3 }]"));
        }
        step => panic!("expected a refusal, got {step:?}"),
    }
    assert_eq!(
        next(&sidecar, &states, None, RecoveryMode::RollForwardOnly),
        RecoveryStep::Defer
    );
}

#[test]
fn a_schema_apply_rolls_forward_with_its_schema() {
    let mut sidecar = new_unvalidated_sidecar(
        5,
        SidecarKind::SchemaApply,
        &FreshIds::generate(),
        None,
        None,
        vec![make_pin("node:Person", 5, 6)],
    );
    sidecar.schema_apply_target_schema_ir_hash = Some("target".to_string());
    let states = vec![state(
        TableClassification::RolledPastExpected,
        5,
        6,
        EffectOwnership::Absent,
    )];
    let step = |promoted, live: Option<&str>| {
        process_sidecar(
            ROOT,
            &sidecar,
            &states,
            &None,
            promoted,
            &live.map(|hash| hash.to_string()),
            RecoveryMode::Full,
        )
    };
    assert_eq!(step(true, None), RecoveryStep::RollForward);
    assert_eq!(step(false, None), RecoveryStep::ReadLiveSchema);
    assert_eq!(step(false, Some("target")), RecoveryStep::RollForward);
    assert_eq!(step(false, Some("old")), RecoveryStep::RollBack);
}

#[test]
fn an_earlier_pass_that_published_is_recorded() {
    let sidecar = new_optimize_sidecar_v9(vec![make_pin("node:Person", 5, 6)]).unwrap();
    let states = vec![state(
        TableClassification::NoMovement,
        6,
        6,
        EffectOwnership::Absent,
    )];
    assert_eq!(
        next(&sidecar, &states, None, RecoveryMode::RollForwardOnly),
        RecoveryStep::RecordRolledForward
    );
}

#[test]
fn the_newest_generation_is_routed_by_its_writer() {
    assert_eq!(recovery_route(&armed()), RecoveryRoute::General);
    assert!(looks_for_exact_outcome(&armed()));
    let optimize = new_optimize_sidecar_v9(vec![make_pin("node:Person", 5, 6)]).unwrap();
    assert_eq!(recovery_route(&optimize), RecoveryRoute::General);
    assert!(!looks_for_exact_outcome(&optimize));
    let mut legacy = new_unvalidated_sidecar(
        LEGACY_SIDECAR_SCHEMA_VERSION,
        SidecarKind::EnsureIndices,
        &FreshIds::generate(),
        None,
        None,
        Vec::new(),
    );
    assert_eq!(recovery_route(&legacy), RecoveryRoute::General);
    legacy.schema_version = 9;
    assert_eq!(recovery_route(&legacy), RecoveryRoute::EnsureIndices);
}

#[test]
fn conflicts_are_met_by_what_was_fixed() {
    let changed = OmniError::manifest_read_set_changed("head", None, None);
    assert_eq!(
        after_publish_error(true, true, &changed),
        ConflictStep::LookForVisibleOutcome
    );
    assert_eq!(after_publish_error(false, true, &changed), ConflictStep::Fail);
    let lost = OmniError::Manifest {
        kind: omnigraph::error::ManifestErrorKind::Conflict,
        message: "stale".to_string(),
        details: Some(
            omnigraph::error::ManifestConflictDetails::ExpectedVersionMismatch {
                table_key: "node:Person".to_string(),
                expected: 5,
                actual: 6,
            },
        ),
    };
    assert_eq!(after_publish_error(true, true, &lost), ConflictStep::Converge);
    assert_eq!(after_publish_error(true, false, &lost), ConflictStep::Fail);
    assert_eq!(
        unresolved_conflict(RecoveryRoute::General, RecoveryMode::RollForwardOnly),
        UnresolvedConflict::Fail
    );
    assert_eq!(
        unresolved_conflict(RecoveryRoute::BranchMerge, RecoveryMode::RollForwardOnly),
        UnresolvedConflict::Defer
    );
    assert_eq!(
        unresolved_conflict(RecoveryRoute::SchemaApply, RecoveryMode::Full),
        UnresolvedConflict::RollBack
    );
    assert_eq!(
        unresolved_conflict(RecoveryRoute::EnsureIndices, RecoveryMode::Full),
        UnresolvedConflict::Fail
    );
}

#[test]
fn a_summary_answers_for_all_tables() {
    let pins = vec![make_pin("node:Person", 5, 6), make_pin("node:Company", 2, 3)];
    let facts = summarize(
        &pins,
        &vec![
            state(
                TableClassification::RolledPastExpected,
                5,
                6,
                EffectOwnership::OwnAtHead,
            ),
            state(
                TableClassification::NoMovement,
                3,
                3,
                EffectOwnership::Absent,
            ),
        ],
    );
    assert!(facts.own_effect && facts.advanced);
    assert!(!facts.own_effect_buried && !facts.unverifiable && !facts.drift);
    assert!(!facts.all_reached && !facts.all_no_movement && !facts.ambiguous_advance);
}

#[test]
fn a_table_is_found_by_its_lifetime() {
    let pin = make_pin("node:Person", 5, 6);
    let live = snapshot(vec![("node:Person", 5)]);
    let entry = snapshot_entry_for_pin(&live, &pin).unwrap().unwrap();
    assert_eq!(entry.table.table_version, 5);
    let mut renamed = live;
    renamed.entries[0].table.table_key = "node:Human".to_string();
    let error = snapshot_entry_for_pin(&renamed, &pin).unwrap_err();
    assert!(error.is_read_set_changed());
    assert!(error.to_text().contains("table_binding:"));
    let mut reborn = snapshot(vec![("node:Person", 5)]);
    reborn.entries[0].identity = TableIdentity::new(1, 12).unwrap();
    let error = snapshot_entry_for_pin(&reborn, &pin).unwrap_err();
    assert!(error.to_text().contains("table_identity:node:Person"));
    let gone = snapshot(Vec::new());
    assert_eq!(snapshot_entry_for_pin(&gone, &pin), Ok(None));
}

#[test]
fn a_missing_fork_is_tolerated_while_armed() {
    let mut sidecar = armed();
    sidecar.branch = Some("feature".to_string());
    sidecar.tables[0].table_branch = Some("feature".to_string());
    let probe = plan_probe(&live_tables(), &sidecar, &sidecar.tables[0]).unwrap();
    assert!(probe.unpublished_fork);
    assert!(probe.allow_missing_target_ref);
    assert_eq!(probe.manifest_pinned, 5);
    assert_eq!(probe.planned_effect.unwrap().uuid, "person");
    let other = plan_probe(&live_tables(), &sidecar, &sidecar.tables[1]).unwrap();
    assert!(!other.unpublished_fork);
}

#[test]
fn an_untouched_fork_is_deleted_at_its_fork_point() {
    let mut sidecar = armed();
    sidecar.branch = Some("feature".to_string());
    sidecar.tables[0].table_branch = Some("feature".to_string());
    let mut untouched = state(
        TableClassification::NoMovement,
        5,
        5,
        EffectOwnership::Absent,
    );
    untouched.unpublished_fork = true;
    let pin = &sidecar.tables[0];
    assert!(discards_forks(&sidecar));
    let mut loose = sidecar.replicate();
    loose.protocol_v3 = None;
    assert!(!discards_forks(&loose));
    assert_eq!(
        fork_to_discard(&sidecar, pin, &untouched, &Vec::new()),
        Some(&"feature".to_string())
    );
    let mut rival = sidecar.replicate();
    rival.operation_id = "another".to_string();
    assert_eq!(
        fork_to_discard(&sidecar, pin, &untouched, &vec![rival]),
        None
    );
    let listing = |parent, head| BranchListing {
        path_child: None,
        target: Some(BranchContents {
            parent_version: parent,
            identifier: BranchIdentifier::main(),
            head_version: head,
        }),
    };
    let step = |listing| discard_fork(&sidecar, pin, "feature", &listing);
    assert_eq!(step(listing(5, None)), ForkStep::ReadHead);
    assert_eq!(step(listing(5, Some(5))), ForkStep::DeleteBranch);
    assert!(matches!(step(listing(4, Some(4))), ForkStep::Refuse(_)));
    assert!(matches!(step(listing(5, Some(6))), ForkStep::Refuse(_)));
    assert_eq!(
        step(BranchListing {
            path_child: None,
            target: None
        }),
        ForkStep::ReclaimTree
    );
    assert_eq!(
        step(BranchListing {
            path_child: Some("feature/x".to_string()),
            target: None
        }),
        ForkStep::Defer("feature/x".to_string())
    );
    assert!(fork_reclaimed("feature", true).is_ok());
    assert!(fork_reclaimed("feature", false)
        .unwrap_err()
        .to_text()
        .contains("appeared during no-effect recovery"));
    let blocked = blocked_rollback_error(&sidecar, "people", "feature", "feature/x");
    assert_eq!(
        blocked.to_text(),
        format!(
            "OCC recovery sidecar '{}' owns physical effects but cannot clean unpublished fork \
             'people:feature' while legacy path-child 'feature/x' is live; refusing read-write \
             open; delete the child branch leaf-first using an existing handle or an offline \
             Lance-level branch tool, then reopen",
            sidecar.operation_id
        )
    );
}

#[test]
fn a_rollback_plan_is_fixed_once() {
    let sidecar = armed();
    let states = vec![
        state(
            TableClassification::IncompletePhaseB,
            5,
            6,
            EffectOwnership::OwnAtHead,
        ),
        state(
            TableClassification::NoMovement,
            2,
            2,
            EffectOwnership::Absent,
        ),
    ];
    let outcome = TableOutcome {
        table_key: "node:Person".to_string(),
        from_version: 6,
        to_version: 5,
    };
    assert!(has_fixed_rollback_identity(&sidecar));
    assert_eq!(
        rollback_audit_outcomes_for_plan(&sidecar, &states),
        vec![outcome.replicate()]
    );
    let prepared = prepare_fixed_rollback_audit_plan(ROOT, &sidecar, &states).unwrap();
    let later = vec![
        state(
            TableClassification::IncompletePhaseB,
            5,
            7,
            EffectOwnership::OwnCompensatedAtHead,
        ),
        state(
            TableClassification::NoMovement,
            2,
            2,
            EffectOwnership::Absent,
        ),
    ];
    let again = prepare_fixed_rollback_audit_plan(ROOT, &prepared, &later).unwrap();
    assert_eq!(again, prepared);
    assert_eq!(
        rollback_audit_outcomes(&again, &later),
        vec![outcome.replicate()]
    );
    let restorations = plan_restorations(&again, &later);
    assert_eq!(restorations.len(), 1);
    assert!(restorations[0].already_restored);
    assert_eq!(restorations[0].target_version, 5);
    let changes = collect_restored_changes(
        &restorations,
        &vec![PublishedTable {
            table_version: 7,
            row_count: 1,
            version_metadata: metadata(7),
        }],
    )
    .unwrap();
    assert_eq!(changes.changes.len(), 1);
    assert_eq!(
        changes
            .expected
            .get(test_identity("node:Person"))
            .unwrap()
            .table_version,
        5
    );
    let legacy = new_unvalidated_sidecar(
        LEGACY_SIDECAR_SCHEMA_VERSION,
        SidecarKind::Optimize,
        &FreshIds::generate(),
        None,
        None,
        Vec::new(),
    );
    let error = prepare_fixed_rollback_audit_plan(ROOT, &legacy, &Vec::new()).unwrap_err();
    assert!(error
        .to_text()
        .contains("called without a fixed rollback identity"));
}

#[test]
fn an_exact_attempt_undoes_only_its_own_effects() {
    let sidecar = armed();
    let states = vec![
        state(
            TableClassification::IncompletePhaseB,
            5,
            6,
            EffectOwnership::Absent,
        ),
        state(
            TableClassification::IncompletePhaseB,
            2,
            3,
            EffectOwnership::OwnAtHead,
        ),
    ];
    let restorations = plan_restorations(&sidecar, &states);
    assert_eq!(restorations.len(), 1);
    assert_eq!(restorations[0].table_key, "node:Company");
    let loose =
        new_ensure_indices_sidecar_v6(None, vec![make_pin("node:Person", 5, 6)]).unwrap();
    assert_eq!(plan_restorations(&loose, &states[..1].to_vec()).len(), 1);
}

#[test]
fn a_roll_forward_publishes_what_was_confirmed() {
    let sidecar = confirmed();
    let states = classify_sidecar_tables(&live_tables(), &sidecar, &own_heads()).unwrap();
    let plan = roll_forward_all(
        &sidecar,
        &states,
        &live_tables(),
        &vec![None, None],
        &Vec::new(),
    )
    .unwrap();
    assert_eq!(plan.changes.changes.len(), 2);
    assert_eq!(
        plan.published_versions.get(test_identity("node:Person")),
        Some(&6)
    );
    assert_eq!(
        plan.changes
            .expected
            .get(test_identity("node:Company"))
            .unwrap()
            .table_version,
        2
    );
    let outcomes = roll_forward_outcomes(&sidecar, &plan.published_versions);
    assert_eq!(outcomes[0].from_version, 5);
    assert_eq!(outcomes[0].to_version, 6);
    let delta = &sidecar.protocol_v3.as_ref().unwrap().intended_delta;
    let (changes, outcomes) = roll_forward_confirmed_delta("OCC", &sidecar, delta).unwrap();
    assert_eq!(changes.changes.len(), 2);
    assert_eq!(outcomes[1].to_version, 3);
    let open = armed();
    let delta = &open.protocol_v3.as_ref().unwrap().intended_delta;
    let error = roll_forward_confirmed_delta("OCC", &open, delta).unwrap_err();
    assert!(error.to_text().contains("is not confirmed"));
}

#[test]
fn a_lost_race_converges_on_the_goal() {
    let sidecar = confirmed();
    let states = classify_sidecar_tables(&live_tables(), &sidecar, &own_heads()).unwrap();
    let behind = live_tables();
    let reached = snapshot(vec![("node:Person", 6), ("node:Company", 3)]);
    assert!(!sidecar_intent_satisfied(&behind, &sidecar, &states));
    assert!(sidecar_intent_satisfied(&reached, &sidecar, &states));
    assert_eq!(
        converge_or_defer_roll_forward(&behind, &sidecar, &states, true),
        Convergence::Deferred
    );
    assert_eq!(
        converge_or_defer_roll_forward(&reached, &sidecar, &states, true),
        Convergence::FinishBookkeeping
    );
    assert_eq!(
        converge_or_defer_roll_forward(&reached, &sidecar, &states, false),
        Convergence::AlreadyFinished
    );
    assert_eq!(
        converged_commit_id(None, Some("head".to_string())),
        "head".to_string()
    );
    assert_eq!(converged_commit_id(None, None), String::new());
}

#[test]
fn an_exact_schema_apply_needs_its_authority() {
    let sidecar = new_schema_apply_sidecar_v9(
        None,
        vec![make_pin("node:Person", 5, 6)],
        authority(),
        lineage(None),
        vec![RecoverySchemaApplyEffect {
            identity: test_identity("node:Person"),
            table_key: "node:Person".to_string(),
            kind: RecoverySchemaApplyEffectKind::ExistingOverwrite {
                planned_transaction: transaction(5, "rewrite"),
                confirmed_transaction: None,
            },
        }],
        RecoveryManifestDelta {
            table_updates: vec![slot("node:Person", 5)],
            registrations: Vec::new(),
            renames: Vec::new(),
            tombstones: Vec::new(),
        },
        "target".to_string(),
    )
    .unwrap();
    let payload = sidecar.protocol_v7.as_ref().unwrap();
    let states = observe_schema_tables(
        &live_tables(),
        &sidecar,
        payload,
        &vec![Some(head(6, "rewrite", TableOperation::Other))],
    )
    .unwrap();
    assert_eq!(
        states[0].classification,
        TableClassification::IncompletePhaseB
    );
    let step = |live, mode| {
        process_schema_apply_sidecar_v7(&sidecar, payload, &states, &live, mode)
    };
    assert_eq!(
        step(None, RecoveryMode::Full),
        RecoveryStep::ReadLiveAuthority
    );
    assert_eq!(
        step(Some(authority()), RecoveryMode::Full),
        RecoveryStep::RollBack
    );
    assert_eq!(
        step(Some(authority()), RecoveryMode::RollForwardOnly),
        RecoveryStep::Defer
    );
}

#[test]
fn an_index_run_that_lost_its_branch_is_refused() {
    let sidecar = new_ensure_indices_sidecar_v9(
        None,
        None,
        vec![make_pin("node:Person", 5, 6)],
        authority(),
        lineage(None),
        &planned(vec![("node:Person", transaction(5, "index"))]),
        &IdentityMap::new(),
    )
    .unwrap();
    let payload = sidecar.protocol_v8.as_ref().unwrap();
    let observe = |target: Option<TargetRef>| {
        let head = target.as_ref().map(|found| HeadReading {
            version: found.head.version,
            history: TableHistory {
                first_version: found.head.history.first_version,
                transactions: vec![Some(CommittedTransaction {
                    identity: transaction(5, "index"),
                    operation: TableOperation::CreateIndex,
                    description: "index".to_string(),
                })],
            },
        });
        observe_indices(
            &live_tables(),
            &sidecar,
            payload,
            &vec![IndexReading { target, head }],
        )
        .unwrap()
    };
    let gone = observe(None);
    assert!(gone.hazard.as_ref().unwrap().contains("disappeared"));
    assert!(matches!(
        process_ensure_indices_sidecar_v8(
            &sidecar,
            payload,
            &gone,
            &Some(authority()),
            RecoveryMode::Full
        ),
        RecoveryStep::Refuse(_)
    ));
    let built = observe(Some(TargetRef {
        parent_version: None,
        branch_identifier: BranchIdentifier::main(),
        head: head(6, "index", TableOperation::CreateIndex),
    }));
    assert_eq!(built.hazard, None);
    assert_eq!(
        process_ensure_indices_sidecar_v8(
            &sidecar,
            payload,
            &built,
            &Some(authority()),
            RecoveryMode::Full
        ),
        RecoveryStep::RollBack
    );
}

#[test]
fn a_merge_without_effects_is_discarded() {
    let sidecar = new_branch_merge_sidecar_v9(
        None,
        None,
        vec![make_pin("node:Person", 5, 6)],
        authority(),
        lineage(Some("01H000000000000000000000S1")),
        vec![RecoveryBranchMergeEffect {
            identity: test_identity("node:Person"),
            table_key: "node:Person".to_string(),
            kind: RecoveryBranchMergeEffectKind::MultiCommitHead {
                source_fork_version: None,
                planned_transactions: vec![transaction(5, "merge")],
                confirmed_version: None,
                confirmed_branch_identifier: None,
            },
        }],
        RecoveryManifestDelta {
            table_updates: vec![slot("node:Person", 5)],
            registrations: Vec::new(),
            renames: Vec::new(),
            tombstones: Vec::new(),
        },
    )
    .unwrap();
    let payload = sidecar.protocol_v4.as_ref().unwrap();
    let step = |version, uuid: &str, mode| {
        let observation = observe_merge(
            &live_tables(),
            &sidecar,
            payload,
            &vec![Some(TargetRef {
                parent_version: None,
                branch_identifier: BranchIdentifier::main(),
                head: head(version, uuid, TableOperation::Other),
            })],
        )
        .unwrap();
        process_branch_merge_sidecar_v4(
            &sidecar,
            payload,
            &observation,
            &Some(authority()),
            mode,
        )
    };
    assert_eq!(
        step(5, "before", RecoveryMode::Full),
        RecoveryStep::DiscardForks
    );
    assert_eq!(
        step(5, "before", RecoveryMode::RollForwardOnly),
        RecoveryStep::Defer
    );
    assert_eq!(step(6, "merge", RecoveryMode::Full), RecoveryStep::RollBack);
    assert!(matches!(
        step(6, "foreign", RecoveryMode::Full),
        RecoveryStep::Refuse(_)
    ));
}

/// A stale attempt on one table: expected 1, the winner published 2, and the attempt's
/// own commit sits on top of it.
fn stale_attempt() -> RecoverySidecar {
    new_occ_sidecar_v9(
        SidecarKind::Mutation,
        None,
        None,
        vec![make_pin("node:Person", 1, 2)],
        authority(),
        lineage(None),
        &planned(vec![("node:Person", transaction(1, "stale-attempt"))]),
    )
    .unwrap()
}

fn commits(first_version: u64, list: Vec<(&str, TableOperation)>) -> HeadReading {
    HeadReading {
        version: first_version + list.len() as u64 - 1,
        history: TableHistory {
            first_version,
            transactions: list
                .into_iter()
                .map(|(uuid, operation)| {
                    Some(CommittedTransaction {
                        identity: transaction(1, uuid),
                        operation,
                        description: "commit".to_string(),
                    })
                })
                .collect(),
        },
    }
}

#[test]
fn exact_preflight_rebase_recovery_preserves_published_winner() {
    let sidecar = stale_attempt();
    let winner_version = 2;
    let published = snapshot(vec![("node:Person", winner_version)]);
    let rebased = commits(
        2,
        vec![
            ("winner", TableOperation::Other),
            ("stale-attempt", TableOperation::Other),
        ],
    );
    assert_eq!(rebased.version, winner_version + 1);
    let mut moved = authority();
    moved.graph_head = Some("winner-commit".to_string());
    let states = classify_sidecar_tables(&published, &sidecar, &vec![Some(rebased)]).unwrap();
    assert_eq!(states[0].effect_ownership, EffectOwnership::OwnAtHead);
    assert_eq!(
        next(&sidecar, &states, Some(moved.replicate()), RecoveryMode::Full),
        RecoveryStep::RollBack
    );
    let list = plan_restorations(&sidecar, &states);
    assert_eq!(list.len(), 1);
    assert_eq!(list[0].target_version, winner_version);
    assert!(!list[0].already_restored);

    let compensated = commits(
        2,
        vec![
            ("winner", TableOperation::Other),
            ("stale-attempt", TableOperation::Other),
            (
                "undo",
                TableOperation::Restore {
                    version: winner_version,
                },
            ),
        ],
    );
    assert_eq!(compensated.version, winner_version + 2);
    let states = classify_sidecar_tables(&published, &sidecar, &vec![Some(compensated)]).unwrap();
    assert_eq!(
        states[0].effect_ownership,
        EffectOwnership::OwnCompensatedAtHead
    );
    assert_eq!(
        next(&sidecar, &states, Some(moved), RecoveryMode::Full),
        RecoveryStep::RollBack
    );
    let list = plan_restorations(&sidecar, &states);
    assert!(list[0].already_restored);
    let changes = collect_restored_changes(
        &list,
        &vec![PublishedTable {
            table_version: winner_version + 2,
            row_count: 1,
            version_metadata: metadata(4),
        }],
    )
    .unwrap();
    assert_eq!(changes.changes.len(), 1);
    assert_eq!(
        changes
            .expected
            .get(test_identity("node:Person"))
            .unwrap()
            .table_version,
        winner_version
    );
}

#[test]
fn fixed_rollback_replays_partial_multi_table_audit_plan_after_crash() {
    let sidecar = armed();
    let partial = vec![
        Some(head(6, "person", TableOperation::Other)),
        Some(head(2, "untouched", TableOperation::Other)),
    ];
    let states = classify_sidecar_tables(&live_tables(), &sidecar, &partial).unwrap();
    assert_eq!(
        next(&sidecar, &states, Some(authority()), RecoveryMode::Full),
        RecoveryStep::RollBack
    );
    let prepared = prepare_fixed_rollback_audit_plan(ROOT, &sidecar, &states).unwrap();
    let payload = prepared.protocol_v3.as_ref().unwrap();
    let planned_outcomes = vec![TableOutcome {
        table_key: "node:Person".to_string(),
        from_version: 6,
        to_version: 5,
    }];
    assert_eq!(
        payload.rollback_audit_outcomes.as_ref(),
        Some(&planned_outcomes)
    );

    let untouched = vec![
        state(
            TableClassification::NoMovement,
            7,
            7,
            EffectOwnership::Absent,
        ),
        state(
            TableClassification::NoMovement,
            2,
            2,
            EffectOwnership::Absent,
        ),
    ];
    let replayed = prepare_fixed_rollback_audit_plan(ROOT, &prepared, &untouched).unwrap();
    assert_eq!(replayed, prepared);
    let closing =
        finalize_visible_v3_outcome(&prepared, payload, VisibleExactOutcome::RolledBack).unwrap();
    assert_eq!(closing.kind, RecoveryKind::RolledBack);
    assert_eq!(closing.graph_commit_id, payload.rollback_graph_commit_id);
    assert_eq!(closing.outcomes, planned_outcomes);
}

#[test]
fn fixed_rollback_replays_preflight_rebase_audit_plan_after_crash() {
    let sidecar = stale_attempt();
    let winner_version = 2;
    let own_head = winner_version + 1;
    let rebased = commits(
        2,
        vec![
            ("winner", TableOperation::Other),
            ("stale-attempt", TableOperation::Other),
        ],
    );
    let states = classify_sidecar_tables(
        &snapshot(vec![("node:Person", winner_version)]),
        &sidecar,
        &vec![Some(rebased)],
    )
    .unwrap();
    let prepared = prepare_fixed_rollback_audit_plan(ROOT, &sidecar, &states).unwrap();
    let payload = prepared.protocol_v3.as_ref().unwrap();
    let closing =
        finalize_visible_v3_outcome(&prepared, payload, VisibleExactOutcome::RolledBack).unwrap();
    assert_eq!(
        closing.outcomes,
        vec![TableOutcome {
            table_key: "node:Person".to_string(),
            from_version: own_head,
            to_version: winner_version,
        }]
    );
}

#[test]
fn what_is_published_satisfies_the_intent() {
    let sidecar = new_unvalidated_sidecar(
        LEGACY_SIDECAR_SCHEMA_VERSION,
        SidecarKind::EnsureIndices,
        &FreshIds::generate(),
        None,
        None,
        vec![make_pin("node:Person", 5, 6)],
    );
    let states = vec![state(
        TableClassification::RolledPastExpected,
        5,
        8,
        EffectOwnership::Absent,
    )];
    let before = snapshot(vec![("node:Person", 5)]);
    assert!(!sidecar_intent_satisfied(&before, &sidecar, &states));
    let read = PublishedTable {
        table_version: 8,
        row_count: 1,
        version_metadata: metadata(8),
    };
    let plan =
        roll_forward_all(&sidecar, &states, &before, &vec![Some(read)], &Vec::new()).unwrap();
    assert_eq!(
        plan.published_versions.get(test_identity("node:Person")),
        Some(&8)
    );
    let after = snapshot(vec![("node:Person", 8)]);
    assert!(sidecar_intent_satisfied(&after, &sidecar, &states));
}
