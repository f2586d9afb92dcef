use arcropolis::hashing::smash_hash;
use arcropolis::table::run_discovery;
use arcropolis::table::LifecycleEvent;
use arcropolis::table::LifecycleState;
use arcropolis::table::RecordOutcome;
use arcropolis::table::Resolution;
use arcropolis::table::ResolutionEntry;
use arcropolis::table::ResourceTable;

#[test]
fn empty_table_answers_unresolved() {
    let table = ResourceTable::new();
    assert_eq!(table.lifecycle_state(), LifecycleState::Empty);
    assert_eq!(table.query(0x1234), Resolution::Unresolved);
    assert_eq!(table.resolved_count(), 0);
}

#[test]
fn begin_discovery_runs_once() {
    let mut table = ResourceTable::new();
    assert!(table.begin_discovery());
    assert_eq!(table.lifecycle_state(), LifecycleState::Discovering);
    assert!(!table.begin_discovery());
    assert_eq!(table.lifecycle_state(), LifecycleState::Discovering);
}

#[test]
fn record_outside_discovery_writes_nothing() {
    let mut table = ResourceTable::new();
    assert_eq!(table.record(7, ResolutionEntry::OriginalOnly), RecordOutcome::NotDiscovering);
    assert_eq!(table.query(7), Resolution::Unresolved);
}

#[test]
fn record_twice_keeps_first_entry_and_reports_once() {
    let mut table = ResourceTable::new();
    assert!(table.begin_discovery());
    assert_eq!(table.record(7, ResolutionEntry::Replaced(0)), RecordOutcome::Recorded);
    let mut warnings = 0;
    if table.record(7, ResolutionEntry::Replaced(1)) == RecordOutcome::Duplicate {
        warnings += 1;
    }
    assert_eq!(warnings, 1);
    assert_eq!(table.query(7), Resolution::Resolved(ResolutionEntry::Replaced(0)));
    assert_eq!(table.resolved_count(), 1);
}

#[test]
fn finish_discovery_is_idempotent() {
    let mut table = ResourceTable::new();
    assert!(table.begin_discovery());
    assert!(table.finish_discovery());
    assert_eq!(table.lifecycle_state(), LifecycleState::Ready);
    assert!(!table.finish_discovery());
    assert_eq!(table.lifecycle_state(), LifecycleState::Ready);
}

#[test]
fn finish_before_begin_is_a_no_op() {
    let mut table = ResourceTable::new();
    assert!(!table.finish_discovery());
    assert_eq!(table.lifecycle_state(), LifecycleState::Empty);
}

#[test]
fn record_after_ready_is_rejected() {
    let mut table = ResourceTable::new();
    assert!(table.begin_discovery());
    assert!(table.finish_discovery());
    assert_eq!(table.record(9, ResolutionEntry::Replaced(0)), RecordOutcome::NotDiscovering);
    assert_eq!(table.query(9), Resolution::Unresolved);
}

#[test]
fn query_answers_in_every_lifecycle_state() {
    // The lifecycle is spun through all three states while lookups are
    // issued at each step; every query returns, and a recorded entry is
    // only ever observed whole.
    let mut table = ResourceTable::new();
    let h = smash_hash("fighter/mario/model.numdlb");
    assert_eq!(table.query(h), Resolution::Unresolved);
    assert!(table.begin_discovery());
    assert_eq!(table.query(h), Resolution::Unresolved);
    assert_eq!(table.record(h, ResolutionEntry::Replaced(5)), RecordOutcome::Recorded);
    assert_eq!(table.query(h), Resolution::Resolved(ResolutionEntry::Replaced(5)));
    assert!(table.finish_discovery());
    assert_eq!(table.query(h), Resolution::Resolved(ResolutionEntry::Replaced(5)));
    assert_eq!(table.query(0xffff_ffff), Resolution::Unresolved);
}

#[test]
fn discovery_end_to_end() {
    let mut table = ResourceTable::new();
    let paths = vec![
        String::from("fighter/mario/model/body/c00/model.numdlb"),
        String::from("ui/replace/chara/chara_0/chara_0_mario_00.bntx"),
    ];
    let h1 = smash_hash("fighter/mario/model/body/c00/model.numdlb");
    assert_eq!(table.query(h1), Resolution::Unresolved);

    let report = run_discovery(&mut table, &paths);

    assert!(report.started);
    assert_eq!(report.recorded, 2);
    assert_eq!(report.collisions, 0);
    assert_eq!(report.completion, Some(LifecycleEvent::ModFilesystemReady));
    assert_eq!(table.lifecycle_state(), LifecycleState::Ready);
    assert_eq!(table.query(h1), Resolution::Resolved(ResolutionEntry::Replaced(0)));
    let h2 = smash_hash("ui/replace/chara/chara_0/chara_0_mario_00.bntx");
    assert_eq!(table.query(h2), Resolution::Resolved(ResolutionEntry::Replaced(1)));
}

#[test]
fn discovery_collision_first_writer_wins() {
    // Two candidates normalize to the same identity: the earlier one in
    // the (deterministic) scan order wins, the later one is a warning.
    let mut table = ResourceTable::new();
    let paths = vec![
        String::from("sound/bank/voice+us_en.nus3audio"),
        String::from("sound/bank/voice+eu_de.nus3audio"),
    ];
    let report = run_discovery(&mut table, &paths);

    assert!(report.started);
    assert_eq!(report.recorded, 1);
    assert_eq!(report.collisions, 1);
    let h = smash_hash("sound/bank/voice.nus3audio");
    assert_eq!(table.query(h), Resolution::Resolved(ResolutionEntry::Replaced(0)));
}

#[test]
fn discovery_runs_once_per_lifetime() {
    let mut table = ResourceTable::new();
    let paths = vec![String::from("fighter/mario.numdlb")];
    let first = run_discovery(&mut table, &paths);
    assert!(first.started);

    let again = run_discovery(&mut table, &paths);
    assert!(!again.started);
    assert_eq!(again.completion, None);
    assert_eq!(table.lifecycle_state(), LifecycleState::Ready);
    let h = smash_hash("fighter/mario.numdlb");
    assert_eq!(table.query(h), Resolution::Resolved(ResolutionEntry::Replaced(0)));
}
