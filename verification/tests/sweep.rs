//! The sweep over pending sidecars, and the small rules around it.

use std::cell::Cell;
use std::rc::Rc;

use omnigraph::arm::{new_unvalidated_sidecar, FreshIds};
use omnigraph::db::{
    clock_micros, is_internal_system_branch, is_schema_apply_lock_branch, now_micros,
    reserve_export_root_exclusion, start_text, MutationOpKind,
};
use omnigraph::error::{ManifestErrorKind, OmniError};
use omnigraph::identity::{table_path_for_identity, IdentityMap, TableIdentity};
use omnigraph::order::text_at_most;
use omnigraph::publish::{audit_record, RecoveryKind};
use omnigraph::sidecar::{RecoverySidecar, SidecarKind, SidecarTablePin};
use omnigraph::sweep::{
    discard_orphaned_branch_sidecar, heal_pending_sidecars_roll_forward, reconciles_schema,
    schema_apply_serial_queue_key, sweep_target, table_queue_keys, unresolved_intent, HealEvent,
    SweepTarget,
};
use omnigraph::text::{decimal_text, name_to_text, parse_i64, trim_start_slashes, version_to_text};
use omnigraph::value::Replicate;

fn test_identity(table_key: &str) -> TableIdentity {
    match table_key {
        "node:Person" => TableIdentity::new(1, 11).unwrap(),
        "node:Company" => TableIdentity::new(2, 22).unwrap(),
        "edge:WorksAt" => TableIdentity::new(3, 33).unwrap(),
        other => panic!("test table '{other}' has no explicit identity"),
    }
}

fn make_pin(table_key: &str, expected: u64, post: u64) -> SidecarTablePin {
    let identity = test_identity(table_key);
    SidecarTablePin {
        identity,
        table_key: table_key.to_string(),
        table_path: format!(
            "memory://test-graph/{}",
            table_path_for_identity(table_key, identity).unwrap()
        ),
        expected_version: expected,
        post_commit_pin: post,
        confirmed_version: None,
        table_branch: None,
    }
}

fn sidecar(branch: Option<&str>) -> RecoverySidecar {
    let mut company = make_pin("node:Company", 2, 3);
    company.table_branch = Some("feature".to_string());
    new_unvalidated_sidecar(
        2,
        SidecarKind::Optimize,
        &FreshIds::generate(),
        branch.map(|name| name.to_string()),
        None,
        vec![
            make_pin("node:Person", 5, 6),
            company,
            make_pin("node:Person", 5, 6),
        ],
    )
}

#[test]
fn schema_applies_are_serialized_by_one_key() {
    assert_eq!(
        schema_apply_serial_queue_key(),
        ("__schema_apply__".to_string(), None)
    );
    let keys = table_queue_keys(&sidecar(None));
    assert_eq!(keys.len(), 3);
    assert_eq!(keys[0], ("node:Person".to_string(), None));
    assert_eq!(
        keys[1],
        ("node:Company".to_string(), Some("feature".to_string()))
    );
    assert!(!reconciles_schema(&sidecar(None)));
    let mut apply = sidecar(None);
    apply.writer_kind = SidecarKind::SchemaApply;
    assert!(reconciles_schema(&apply));
}

#[test]
fn a_deleted_branch_orphans_its_sidecar() {
    let branches = vec!["main".to_string(), "feature".to_string()];
    assert_eq!(sweep_target(&sidecar(None), &branches), SweepTarget::Main);
    assert_eq!(
        sweep_target(&sidecar(Some("feature")), &branches),
        SweepTarget::Branch("feature".to_string())
    );
    assert_eq!(
        sweep_target(&sidecar(Some("gone")), &branches),
        SweepTarget::Orphaned
    );
}

#[test]
fn a_discard_is_recorded_once() {
    let pending = sidecar(Some("gone"));
    let first = discard_orphaned_branch_sidecar("root/", &pending, &Vec::new());
    assert!(first.records_first);
    assert_eq!(
        first.handle.sidecar_uri,
        format!("root/__recovery/{}.json", pending.operation_id)
    );
    let row = audit_record(
        &pending,
        "commit".to_string(),
        RecoveryKind::OrphanedBranchDiscarded,
        Vec::new(),
        1,
    );
    assert!(!discard_orphaned_branch_sidecar("root/", &pending, &vec![row]).records_first);
}

#[test]
fn what_is_left_in_place_is_described() {
    let intent = unresolved_intent(&sidecar(Some("main")));
    assert_eq!(intent.branch, None);
    assert_eq!(
        intent.table_keys,
        vec!["node:Company".to_string(), "node:Person".to_string()]
    );
    assert_eq!(
        unresolved_intent(&sidecar(Some("feature"))).branch,
        Some("feature".to_string())
    );
}

#[test]
fn a_pass_of_healing_is_summed_up() {
    let empty = heal_pending_sidecars_roll_forward(&Vec::new());
    assert!(!empty.processed_any && empty.unresolved.is_empty());
    let left = sidecar(None);
    let outcome = heal_pending_sidecars_roll_forward(&vec![
        HealEvent::Gone,
        HealEvent::LeftInPlace(left.replicate()),
    ]);
    assert!(!outcome.processed_any);
    assert_eq!(outcome.unresolved, vec![unresolved_intent(&left)]);
    let outcome = heal_pending_sidecars_roll_forward(&vec![
        HealEvent::LeftInPlace(left.replicate()),
        HealEvent::Discarded,
        HealEvent::Finished(left.replicate()),
    ]);
    assert!(outcome.processed_any);
    assert_eq!(outcome.unresolved.len(), 1);
}

struct Permit(Rc<Cell<bool>>);

impl Drop for Permit {
    fn drop(&mut self) {
        self.0.set(false);
    }
}

#[test]
fn exports_exclude_destructive_control() {
    let held = Rc::new(Cell::new(true));
    let permit = Permit(Rc::clone(&held));
    let exclusion = reserve_export_root_exclusion(Ok("root".to_string()), Some(permit)).unwrap();
    assert!(held.get());
    drop(exclusion);
    assert!(!held.get());
    assert_eq!(
        reserve_export_root_exclusion::<u8>(Ok("root".to_string()), None).err(),
        Some(OmniError::ResourceLimitExceeded {
            resource: "stream_export_slots".to_string(),
            limit: 1,
            actual: 2,
        })
    );
    let error = || OmniError::manifest("bad root");
    assert_eq!(
        reserve_export_root_exclusion::<u8>(Err(error()), None).err(),
        Some(error())
    );
}

#[test]
fn staging_checks_versions_by_kind() {
    assert!(!MutationOpKind::Insert.strict_pre_stage_version_check());
    assert!(!MutationOpKind::Merge.strict_pre_stage_version_check());
    assert!(MutationOpKind::Update.strict_pre_stage_version_check());
    assert!(MutationOpKind::Delete.strict_pre_stage_version_check());
    assert!(MutationOpKind::SchemaRewrite.strict_pre_stage_version_check());
}

#[test]
fn the_lock_branch_is_internal() {
    assert!(is_schema_apply_lock_branch("__schema_apply_lock__"));
    assert!(is_internal_system_branch("//__schema_apply_lock__"));
    assert!(!is_internal_system_branch("__schema_apply_lock__/"));
    assert!(!is_internal_system_branch("main"));
    assert_eq!(trim_start_slashes("//a/"), "a/");
}

#[test]
fn the_clock_is_read_in_microseconds() {
    assert_eq!(clock_micros(Ok(12)), Ok(12));
    let error = clock_micros(Err("earlier".to_string())).unwrap_err();
    assert_eq!(
        error,
        OmniError::Manifest {
            kind: ManifestErrorKind::BadRequest,
            message: "system clock before UNIX_EPOCH: earlier".to_string(),
            details: None,
        }
    );
    assert!(now_micros().unwrap() > 1_600_000_000_000_000);
    assert_eq!(start_text(Ok(u128::MAX)), u128::MAX.to_string());
    assert_eq!(start_text(Err("earlier".to_string())), "0");
}

#[test]
fn identities_key_a_map() {
    let mut map = IdentityMap::new();
    let person = test_identity("node:Person");
    assert!(map.insert(person, 1));
    assert!(!map.insert(person, 2));
    assert_eq!(map.len(), 1);
    map.set(person, 3);
    assert_eq!(map.keys(), vec![person]);
    assert!(map.get(test_identity("node:Company")).is_none());
}

#[test]
fn numbers_and_names_are_spelled_out() {
    assert_eq!(decimal_text(0), "0");
    assert_eq!(decimal_text(u64::MAX), "18446744073709551615");
    assert_eq!(version_to_text(Some(5)), "Some(5)");
    assert_eq!(version_to_text(None), "None");
    assert_eq!(
        name_to_text(&Some("a\\b".to_string())),
        "Some(\"a\\\\b\")"
    );
    assert_eq!(name_to_text(&None), "None");
    assert_eq!(parse_i64("-9223372036854775808"), Ok(i64::MIN));
    assert_eq!(parse_i64("+7"), Ok(7));
}

#[test]
fn what_is_not_a_number_is_refused_from_the_left() {
    for text in [
        "",
        "+",
        "-",
        "-+1",
        "1x",
        "x99999999999999999999",
        "9223372036854775808",
        "-9223372036854775809",
        "99999999999999999999x",
        "-99999999999999999999x",
        "9223372036854775807x",
        "9223372036854775808x",
        "00000000000000000000000x",
        "99999999999999999999\u{e9}",
    ] {
        let expected = text.parse::<i64>().unwrap_err().to_string();
        assert_eq!(parse_i64(text), Err(expected), "{text}");
    }
    assert_eq!(
        parse_i64("99999999999999999999x"),
        Err("number too large to fit in target type".to_string())
    );
    assert_eq!(
        parse_i64("9223372036854775807x"),
        Err("invalid digit found in string".to_string())
    );
    assert_eq!(parse_i64("0000000000000000000000009"), Ok(9));
}

#[test]
fn texts_are_ordered_by_their_characters() {
    assert!(text_at_most("", "a"));
    assert!(text_at_most("abc", "abd"));
    assert!(!text_at_most("b", "ab"));
    assert!(text_at_most("Z", "a"));
}

#[test]
fn errors_are_spelled_for_their_readers() {
    assert_eq!(OmniError::manifest_internal("broken").to_text(), "broken");
    let changed = OmniError::manifest_read_set_changed("head", Some("a".to_string()), None);
    assert!(changed.is_read_set_changed());
    assert!(changed.to_text().contains("read set changed at 'head': expected a, found none"));
    let required = OmniError::recovery_required("op", "pending");
    assert!(required.to_text().contains("op"));
    assert!(required.to_text().contains("pending"));
    assert!(!OmniError::manifest_conflict("x").is_read_set_changed());
    let limited = OmniError::ResourceLimitExceeded {
        resource: "slots".to_string(),
        limit: 1,
        actual: 2,
    };
    assert_eq!(
        limited.to_text(),
        "resource limit exceeded for slots: limit 1, actual 2"
    );
}
