//! How the head of a table is read, and what a sidecar's tables decide together.

use omnigraph::classify::{
    classes_to_text, classify_table, classify_table_observation, collect_classes, decide,
    table_requires_rollback_effect, ClassificationMode, ClassifiedTable, SidecarDecision,
    TableClassification,
};
use omnigraph::history::EffectOwnership;
use omnigraph::identity::{table_path_for_identity, TableIdentity};
use omnigraph::sidecar::{
    SidecarKind, SidecarTablePin, CONFIRMATION_SCHEMA_VERSION,
    ENSURE_INDICES_ROLLBACK_SCHEMA_VERSION, LEGACY_SIDECAR_SCHEMA_VERSION,
    SCHEMA_APPLY_CONFIRMATION_SCHEMA_VERSION, SIDECAR_SCHEMA_VERSION,
};

fn test_identity(table_key: &str) -> TableIdentity {
    match table_key {
        "node:Person" => TableIdentity::new(1, 11).unwrap(),
        other => panic!("test table '{other}' has no explicit identity"),
    }
}

fn make_pin(table_key: &str, _table_path: &str, expected: u64, post: u64) -> SidecarTablePin {
    let identity = test_identity(table_key);
    SidecarTablePin {
        identity,
        table_key: table_key.to_string(),
        table_path: format!(
            "memory://test-graph/{}",
            table_path_for_identity(table_key, identity).unwrap()
        ),
        expected_version: expected,
        post_commit_pin: post,
        confirmed_version: None,
        table_branch: None,
    }
}

fn state(classification: TableClassification, ownership: EffectOwnership) -> ClassifiedTable {
    ClassifiedTable {
        classification,
        manifest_pinned: 5,
        lance_head: 6,
        effect_ownership: ownership,
        unpublished_fork: false,
    }
}

#[test]
fn classify_no_movement_when_head_equals_pinned() {
    let pin = make_pin("node:Person", "irrelevant", 5, 6);
    assert_eq!(
        classify_table(
            &pin,
            5,
            5,
            SidecarKind::Mutation,
            LEGACY_SIDECAR_SCHEMA_VERSION,
        ),
        TableClassification::NoMovement,
    );
}

#[test]
fn classify_rolled_past_expected_when_sidecar_matches_strict() {
    let pin = make_pin("node:Person", "irrelevant", 5, 6);
    assert_eq!(
        classify_table(
            &pin,
            6,
            5,
            SidecarKind::Mutation,
            LEGACY_SIDECAR_SCHEMA_VERSION,
        ),
        TableClassification::RolledPastExpected,
    );
}

#[test]
fn classify_unexpected_at_p1_when_sidecar_does_not_match_strict() {
    let pin = make_pin("node:Person", "irrelevant", 5, 7);
    assert_eq!(
        classify_table(
            &pin,
            6,
            5,
            SidecarKind::Mutation,
            LEGACY_SIDECAR_SCHEMA_VERSION,
        ),
        TableClassification::UnexpectedAtP1,
    );
}

#[test]
fn classify_unexpected_multistep_when_head_jumped_more_than_one_strict() {
    let pin = make_pin("node:Person", "irrelevant", 5, 6);
    assert_eq!(
        classify_table(
            &pin,
            8,
            5,
            SidecarKind::Mutation,
            LEGACY_SIDECAR_SCHEMA_VERSION,
        ),
        TableClassification::UnexpectedMultistep,
    );
}

#[test]
fn classify_invariant_violation_when_head_below_pinned() {
    let pin = make_pin("node:Person", "irrelevant", 5, 6);
    assert_eq!(
        classify_table(
            &pin,
            3,
            5,
            SidecarKind::Mutation,
            LEGACY_SIDECAR_SCHEMA_VERSION,
        ),
        TableClassification::InvariantViolation { observed: 3 },
    );
}

#[test]
fn classify_loose_match_accepts_multi_commit_drift_for_schema_apply() {
    let pin = make_pin("node:Person", "irrelevant", 5, 6);
    assert_eq!(
        classify_table(
            &pin,
            8,
            5,
            SidecarKind::SchemaApply,
            SCHEMA_APPLY_CONFIRMATION_SCHEMA_VERSION,
        ),
        TableClassification::RolledPastExpected,
    );
}

#[test]
fn classify_loose_match_accepts_multi_commit_drift_for_ensure_indices() {
    let pin = make_pin("node:Person", "irrelevant", 5, 6);
    assert_eq!(
        classify_table(
            &pin,
            9,
            5,
            SidecarKind::EnsureIndices,
            ENSURE_INDICES_ROLLBACK_SCHEMA_VERSION,
        ),
        TableClassification::RolledPastExpected,
    );
}

#[test]
fn classify_loose_match_no_movement_unchanged() {
    let pin = make_pin("node:Person", "irrelevant", 5, 6);
    assert_eq!(
        classify_table(
            &pin,
            5,
            5,
            SidecarKind::SchemaApply,
            SCHEMA_APPLY_CONFIRMATION_SCHEMA_VERSION,
        ),
        TableClassification::NoMovement,
    );
}

#[test]
fn classify_loose_match_invariant_violation_unchanged() {
    let pin = make_pin("node:Person", "irrelevant", 5, 6);
    assert_eq!(
        classify_table(
            &pin,
            3,
            5,
            SidecarKind::SchemaApply,
            SCHEMA_APPLY_CONFIRMATION_SCHEMA_VERSION,
        ),
        TableClassification::InvariantViolation { observed: 3 },
    );
}

#[test]
fn classify_branch_merge_requires_phase_b_confirmation() {
    let unconfirmed = make_pin("node:Person", "irrelevant", 5, 6);
    assert_eq!(
        classify_table(
            &unconfirmed,
            8,
            5,
            SidecarKind::BranchMerge,
            SIDECAR_SCHEMA_VERSION
        ),
        TableClassification::IncompletePhaseB,
    );
    assert_eq!(
        classify_table(
            &unconfirmed,
            8,
            5,
            SidecarKind::BranchMerge,
            CONFIRMATION_SCHEMA_VERSION - 1,
        ),
        TableClassification::RolledPastExpected,
    );
    let confirmed = SidecarTablePin {
        confirmed_version: Some(8),
        ..make_pin("node:Person", "irrelevant", 5, 6)
    };
    assert_eq!(
        classify_table(
            &confirmed,
            8,
            5,
            SidecarKind::BranchMerge,
            SIDECAR_SCHEMA_VERSION
        ),
        TableClassification::RolledPastExpected,
    );
    assert_eq!(
        classify_table(
            &confirmed,
            9,
            5,
            SidecarKind::BranchMerge,
            SIDECAR_SCHEMA_VERSION
        ),
        TableClassification::UnexpectedMultistep,
    );
}

#[test]
fn classify_loose_match_branch_merge_no_movement_unchanged() {
    let pin = make_pin("node:Person", "irrelevant", 5, 6);
    assert_eq!(
        classify_table(&pin, 5, 5, SidecarKind::BranchMerge, SIDECAR_SCHEMA_VERSION),
        TableClassification::NoMovement,
    );
}

#[test]
fn classify_loose_match_branch_merge_invariant_violation_unchanged() {
    let pin = make_pin("node:Person", "irrelevant", 5, 6);
    assert_eq!(
        classify_table(&pin, 3, 5, SidecarKind::BranchMerge, SIDECAR_SCHEMA_VERSION),
        TableClassification::InvariantViolation { observed: 3 },
    );
}

#[test]
fn decide_roll_forward_when_all_classifications_match() {
    let cls = vec![
        TableClassification::RolledPastExpected,
        TableClassification::RolledPastExpected,
    ];
    assert_eq!(decide(&cls), SidecarDecision::RollForward);
}

#[test]
fn decide_roll_back_on_mid_phase_b_crash_mix() {
    let cls = vec![
        TableClassification::RolledPastExpected,
        TableClassification::NoMovement,
    ];
    assert_eq!(decide(&cls), SidecarDecision::RollBack);
}

#[test]
fn decide_roll_back_on_unexpected_at_p1() {
    let cls = vec![
        TableClassification::RolledPastExpected,
        TableClassification::UnexpectedAtP1,
    ];
    assert_eq!(decide(&cls), SidecarDecision::RollBack);
}

#[test]
fn decide_abort_on_invariant_violation() {
    let cls = vec![
        TableClassification::RolledPastExpected,
        TableClassification::InvariantViolation { observed: 1 },
    ];
    assert_eq!(decide(&cls), SidecarDecision::Abort);
}

#[test]
fn decide_roll_forward_on_empty_slice() {
    assert_eq!(decide(&[]), SidecarDecision::RollForward);
}

#[test]
fn decide_ignores_the_order_of_the_tables() {
    let forward = [
        TableClassification::NoMovement,
        TableClassification::RolledPastExpected,
        TableClassification::InvariantViolation { observed: 2 },
    ];
    let backward = [forward[2], forward[1], forward[0]];
    assert_eq!(decide(&forward), SidecarDecision::Abort);
    assert_eq!(decide(&backward), SidecarDecision::Abort);
}

#[test]
fn decide_rolls_back_on_every_other_class() {
    for class in [
        TableClassification::UnexpectedMultistep,
        TableClassification::UnexpectedEffectIdentity,
        TableClassification::IncompletePhaseB,
    ] {
        assert_eq!(
            decide(&[TableClassification::RolledPastExpected, class]),
            SidecarDecision::RollBack
        );
    }
}

#[test]
fn loose_semantics_tell_one_step_from_several() {
    let pin = make_pin("node:Person", "irrelevant", 4, 5);
    assert_eq!(
        classify_table(&pin, 6, 5, SidecarKind::Optimize, SIDECAR_SCHEMA_VERSION),
        TableClassification::UnexpectedAtP1
    );
    assert_eq!(
        classify_table(&pin, 7, 5, SidecarKind::Optimize, SIDECAR_SCHEMA_VERSION),
        TableClassification::UnexpectedMultistep
    );
}

#[test]
fn strict_semantics_at_the_largest_version() {
    let pin = make_pin("node:Person", "irrelevant", u64::MAX - 1, u64::MAX);
    assert_eq!(
        classify_table(
            &pin,
            u64::MAX,
            u64::MAX - 1,
            SidecarKind::Load,
            LEGACY_SIDECAR_SCHEMA_VERSION
        ),
        TableClassification::RolledPastExpected
    );
}

#[test]
fn an_exact_attempt_without_payload_is_incomplete() {
    let pin = make_pin("node:Person", "irrelevant", 5, 6);
    assert_eq!(
        classify_table_observation(
            &pin,
            6,
            &None,
            5,
            SidecarKind::Load,
            SIDECAR_SCHEMA_VERSION,
            &None
        ),
        TableClassification::IncompletePhaseB
    );
}

#[test]
fn generations_choose_their_semantics() {
    assert_eq!(
        SidecarKind::Mutation.classification_mode(2),
        ClassificationMode::Strict
    );
    assert_eq!(
        SidecarKind::Mutation.classification_mode(3),
        ClassificationMode::ExactEffect
    );
    assert_eq!(
        SidecarKind::BranchMerge.classification_mode(1),
        ClassificationMode::Loose
    );
    assert_eq!(
        SidecarKind::BranchMerge.classification_mode(2),
        ClassificationMode::Confirmed
    );
    assert_eq!(
        SidecarKind::SchemaApply.classification_mode(6),
        ClassificationMode::Loose
    );
    assert_eq!(
        SidecarKind::SchemaApply.classification_mode(7),
        ClassificationMode::ExactEffect
    );
    assert_eq!(
        SidecarKind::EnsureIndices.classification_mode(7),
        ClassificationMode::Loose
    );
    assert_eq!(
        SidecarKind::EnsureIndices.classification_mode(8),
        ClassificationMode::ExactEffect
    );
    assert_eq!(
        SidecarKind::Optimize.classification_mode(9),
        ClassificationMode::Loose
    );
}

#[test]
fn classes_are_spelled_in_messages() {
    let states = vec![
        state(TableClassification::NoMovement, EffectOwnership::Absent),
        state(
            TableClassification::InvariantViolation { observed: 3 },
            EffectOwnership::Absent,
        ),
    ];
    assert_eq!(
        classes_to_text(&states),
        "[NoMovement, InvariantViolation { observed: 3 }]"
    );
    assert_eq!(
        collect_classes(&states),
        vec![
            TableClassification::NoMovement,
            TableClassification::InvariantViolation { observed: 3 }
        ]
    );
}

#[test]
fn only_moved_tables_are_rolled_back() {
    assert!(!table_requires_rollback_effect(&state(
        TableClassification::NoMovement,
        EffectOwnership::Absent
    )));
    assert!(table_requires_rollback_effect(&state(
        TableClassification::RolledPastExpected,
        EffectOwnership::OwnAtHead
    )));
}
