//! What the history of a table proves of a planned effect.

use omnigraph::history::{
    effect_ownership, observe_head, prove_branch_merge_multi_commit_effect,
    prove_ensure_indices_create_index_operation, transaction_to_text, CommittedTransaction,
    EffectOwnership, HeadReading, PlannedEffect, TableHistory, TableOperation,
};
use omnigraph::sidecar::StagedTransactionIdentity;

fn transaction(read_version: u64, uuid: &str) -> StagedTransactionIdentity {
    StagedTransactionIdentity {
        read_version,
        uuid: uuid.to_string(),
    }
}

fn commit(read_version: u64, uuid: &str, operation: TableOperation) -> Option<CommittedTransaction> {
    Some(CommittedTransaction {
        identity: transaction(read_version, uuid),
        operation,
        description: format!("{operation:?}"),
    })
}

fn history(transactions: Vec<Option<CommittedTransaction>>) -> TableHistory {
    TableHistory {
        first_version: 2,
        transactions,
    }
}

#[test]
fn exact_effect_observation_recognizes_interrupted_rollback_restore() {
    let planned = || {
        Some(PlannedEffect {
            first_possible_version: 2,
            uuid: "append".to_string(),
            compensation_target: 1,
        })
    };
    let restored = HeadReading {
        version: 3,
        history: history(vec![
            commit(1, "append", TableOperation::Other),
            commit(2, "restore", TableOperation::Restore { version: 1 }),
        ]),
    };
    let observation = observe_head(&restored, &planned());
    assert_eq!(observation.version, 3);
    assert_eq!(
        observation.effect_ownership,
        EffectOwnership::OwnCompensatedAtHead
    );
    assert_eq!(observation.transaction, Some(transaction(2, "restore")));

    let elsewhere = HeadReading {
        version: 4,
        history: history(vec![
            commit(1, "append", TableOperation::Other),
            commit(2, "restore", TableOperation::Restore { version: 1 }),
            commit(3, "again", TableOperation::Restore { version: 2 }),
        ]),
    };
    assert_eq!(
        observe_head(&elsewhere, &planned()).effect_ownership,
        EffectOwnership::OwnBeforeHead
    );
    let unplanned = observe_head(&elsewhere, &None);
    assert_eq!(unplanned.effect_ownership, EffectOwnership::Absent);
    assert_eq!(unplanned.transaction, None);
}

#[test]
fn an_effect_is_absent_only_where_every_version_is_readable() {
    let uuid = "append".to_string();
    let readable = history(vec![
        commit(1, "a", TableOperation::Other),
        commit(2, "b", TableOperation::Other),
    ]);
    assert_eq!(
        effect_ownership(&readable, 3, 2, &uuid, 1),
        EffectOwnership::Absent
    );
    assert_eq!(
        effect_ownership(&readable, 1, 2, &uuid, 1),
        EffectOwnership::Absent
    );
    let holes = history(vec![None, commit(2, "b", TableOperation::Other)]);
    assert_eq!(
        effect_ownership(&holes, 3, 2, &uuid, 1),
        EffectOwnership::Unverifiable
    );
    let late = history(vec![None, commit(2, "append", TableOperation::Other)]);
    assert_eq!(
        effect_ownership(&late, 3, 2, &uuid, 1),
        EffectOwnership::OwnAtHead
    );
    assert_eq!(
        effect_ownership(&readable, u64::MAX, 2, &uuid, 1),
        EffectOwnership::Unverifiable
    );
}

#[test]
fn branch_merge_v4_proves_exact_chain_and_interrupted_compensation() {
    let planned = vec![transaction(1, "first"), transaction(2, "second")];
    let whole = history(vec![
        commit(1, "first", TableOperation::Other),
        commit(2, "second", TableOperation::Other),
    ]);
    let proof =
        prove_branch_merge_multi_commit_effect(&whole, 3, &planned, 1, "node:Person").unwrap();
    assert_eq!(proof.effect_ownership, EffectOwnership::OwnAtHead);
    assert!(proof.full_effect_at_head);
    assert!(proof.unsafe_reason.is_none());

    let partial =
        prove_branch_merge_multi_commit_effect(&whole, 2, &planned, 1, "node:Person").unwrap();
    assert_eq!(partial.effect_ownership, EffectOwnership::OwnAtHead);
    assert!(!partial.full_effect_at_head);

    let untouched =
        prove_branch_merge_multi_commit_effect(&whole, 1, &planned, 1, "node:Person").unwrap();
    assert_eq!(untouched.effect_ownership, EffectOwnership::Absent);

    let compensated = history(vec![
        commit(1, "first", TableOperation::Other),
        commit(2, "second", TableOperation::Other),
        commit(3, "undo", TableOperation::Restore { version: 1 }),
    ]);
    let proof = prove_branch_merge_multi_commit_effect(&compensated, 4, &planned, 1, "node:Person")
        .unwrap();
    assert_eq!(
        proof.effect_ownership,
        EffectOwnership::OwnCompensatedAtHead
    );
    assert!(!proof.full_effect_at_head);
    assert!(proof.unsafe_reason.is_none());
}

#[test]
fn branch_merge_v4_refuses_unplanned_head_movement() {
    let planned = vec![transaction(1, "planned-but-not-committed")];
    let foreign = history(vec![commit(1, "foreign", TableOperation::Other)]);
    let proof =
        prove_branch_merge_multi_commit_effect(&foreign, 2, &planned, 1, "node:Person").unwrap();
    assert_eq!(proof.effect_ownership, EffectOwnership::Unverifiable);
    assert!(!proof.full_effect_at_head);
    assert!(proof.unsafe_reason.unwrap().contains("expected exact planned identity"));
    let behind =
        prove_branch_merge_multi_commit_effect(&foreign, 0, &planned, 1, "node:Person").unwrap();
    assert!(behind
        .unsafe_reason
        .unwrap()
        .contains("HEAD 0 is behind its planned transaction base 1"));
}

#[test]
fn branch_merge_v4_accepts_only_one_derived_index_tail() {
    let planned = vec![transaction(1, "data")];
    let one = history(vec![
        commit(1, "data", TableOperation::Other),
        commit(2, "index", TableOperation::CreateIndex),
    ]);
    let proof =
        prove_branch_merge_multi_commit_effect(&one, 3, &planned, 1, "node:Person").unwrap();
    assert_eq!(proof.effect_ownership, EffectOwnership::OwnAtHead);
    assert!(proof.full_effect_at_head);

    let two = history(vec![
        commit(1, "data", TableOperation::Other),
        commit(2, "index", TableOperation::CreateIndex),
        commit(3, "more", TableOperation::CreateIndex),
    ]);
    let proof =
        prove_branch_merge_multi_commit_effect(&two, 4, &planned, 1, "node:Person").unwrap();
    assert_eq!(proof.effect_ownership, EffectOwnership::Unverifiable);
    assert!(!proof.full_effect_at_head);
    assert!(proof
        .unsafe_reason
        .unwrap()
        .contains("outside its single derived CreateIndex tail at version 4"));
}

#[test]
fn a_chain_without_an_output_version_is_broken() {
    let planned = vec![transaction(1, "data"), transaction(u64::MAX, "end")];
    let whole = history(vec![
        commit(1, "data", TableOperation::Other),
        commit(2, "end", TableOperation::Other),
    ]);
    let error = prove_branch_merge_multi_commit_effect(&whole, 3, &planned, 1, "node:Person")
        .unwrap_err();
    assert!(error
        .to_text()
        .contains("BranchMerge transaction version overflow for table 'node:Person'"));
}

#[test]
fn an_index_transaction_has_to_build_an_index() {
    let planned = transaction(1, "index");
    let built = history(vec![commit(1, "index", TableOperation::CreateIndex)]);
    assert_eq!(
        prove_ensure_indices_create_index_operation(&built, 2, &planned),
        Ok(true)
    );
    let data = history(vec![commit(1, "index", TableOperation::Other)]);
    assert_eq!(
        prove_ensure_indices_create_index_operation(&data, 2, &planned),
        Ok(false)
    );
    let hole = history(vec![None, commit(2, "index", TableOperation::CreateIndex)]);
    assert_eq!(
        prove_ensure_indices_create_index_operation(&hole, 3, &planned),
        Ok(false)
    );
    let error =
        prove_ensure_indices_create_index_operation(&built, 2, &transaction(u64::MAX, "index"))
            .unwrap_err();
    assert!(error
        .to_text()
        .contains("EnsureIndices transaction output version overflow"));
}

#[test]
fn transactions_are_spelled_with_quotes() {
    assert_eq!(
        transaction_to_text(&transaction(7, "a\"b")),
        "StagedTransactionIdentity { read_version: 7, uuid: \"a\\\"b\" }"
    );
}
