//! The incremental engine: dirty sets, compile plans, freeze propagation,
//! and the steady state after a successful build.

use abs::config::ConfigValue;
use abs::engine::{all_succeeded, BuildSnapshot};
use abs::file::File;
use abs::profile::Profile;
use abs::section::Section;

fn text(s: &str) -> ConfigValue {
    ConfigValue::Text(s.to_string())
}

fn table(entries: Vec<(&str, ConfigValue)>) -> ConfigValue {
    ConfigValue::Table(
        entries
            .into_iter()
            .map(|(k, v)| (k.to_string(), v))
            .collect(),
    )
}

fn file(path: &str, mtime: i64) -> File {
    File::new(path.to_string(), mtime).unwrap()
}

/// `a.cpp` and `b.cpp` both include `h.hpp`.
fn two_sources_one_header() -> Section {
    let cfg = table(vec![("source", text("src"))]);
    Section::new(
        "app".to_string(),
        &cfg,
        Profile::empty("debug"),
        vec![
            file("/src/a.cpp", 100),
            file("/src/b.cpp", 100),
            file("/src/h.hpp", 100),
        ],
        Vec::new(),
        vec![vec![2], vec![2], vec![]],
    )
    .unwrap()
}

fn snapshot(frozen: Vec<Option<i64>>, objects: Vec<bool>, outlet: bool) -> BuildSnapshot {
    BuildSnapshot {
        frozen,
        object_present: objects,
        outlet_present: outlet,
    }
}

#[test]
fn clean_tree_schedules_every_source() {
    let s = two_sources_one_header();
    let snap = snapshot(vec![None, None, None], vec![false, false, false], false);
    assert!(!s.build_is_trivial(&snap));
    let plan = s.compile_plan(&snap);
    assert!(plan.contains(&0));
    assert!(plan.contains(&1));
    assert!(!plan.contains(&2));
    assert_eq!(plan.len(), 2);
}

#[test]
fn steady_state_builds_nothing() {
    let s = two_sources_one_header();
    let snap = snapshot(
        vec![Some(200), Some(200), Some(200)],
        vec![true, true, false],
        true,
    );
    assert!(s.build_is_trivial(&snap));
    assert_eq!(s.compile_plan(&snap), Vec::<usize>::new());
    assert_eq!(s.dirty_set(&snap), Vec::<usize>::new());
}

#[test]
fn second_build_after_success_is_trivial() {
    let s = two_sources_one_header();
    let before = snapshot(vec![None, None, None], vec![false, false, false], false);
    let plan = s.compile_plan(&before);
    let results = vec![true; plan.len()];
    assert!(all_succeeded(&results));
    let now = 500;
    let frozen_after = s.next_frozen(&before, &plan, &results, now);
    assert_eq!(frozen_after, vec![Some(now), Some(now), Some(now)]);
    let after = snapshot(frozen_after, vec![true, true, false], true);
    assert!(s.build_is_trivial(&after));
    assert_eq!(s.compile_plan(&after), Vec::<usize>::new());
}

#[test]
fn touched_source_recompiles_alone() {
    let cfg = table(vec![("source", text("src"))]);
    let s = Section::new(
        "app".to_string(),
        &cfg,
        Profile::empty("debug"),
        vec![
            file("/src/a.cpp", 300),
            file("/src/b.cpp", 100),
            file("/src/h.hpp", 100),
        ],
        Vec::new(),
        vec![vec![2], vec![2], vec![]],
    )
    .unwrap();
    let snap = snapshot(
        vec![Some(200), Some(200), Some(200)],
        vec![true, true, false],
        true,
    );
    assert_eq!(s.dirty_set(&snap), vec![0]);
    assert_eq!(s.compile_plan(&snap), vec![0]);
}

#[test]
fn dirty_header_recompiles_all_its_includers() {
    let cfg = table(vec![("source", text("src"))]);
    let s = Section::new(
        "app".to_string(),
        &cfg,
        Profile::empty("debug"),
        vec![
            file("/src/a.cpp", 100),
            file("/src/b.cpp", 100),
            file("/src/h.hpp", 300),
        ],
        Vec::new(),
        vec![vec![2], vec![2], vec![]],
    )
    .unwrap();
    let snap = snapshot(
        vec![Some(200), Some(200), Some(200)],
        vec![true, true, false],
        true,
    );
    assert_eq!(s.dirty_set(&snap), vec![2]);
    let plan = s.compile_plan(&snap);
    assert!(plan.contains(&0));
    assert!(plan.contains(&1));
    assert!(!plan.contains(&2));
    assert_eq!(plan.len(), 2);
}

#[test]
fn missing_object_makes_a_source_dirty() {
    let s = two_sources_one_header();
    let snap = snapshot(
        vec![Some(200), Some(200), Some(200)],
        vec![true, false, false],
        true,
    );
    assert!(!s.build_is_trivial(&snap));
    assert_eq!(s.dirty_set(&snap), vec![1]);
    assert_eq!(s.compile_plan(&snap), vec![1]);
}

#[test]
fn header_freezes_only_when_every_includer_succeeds() {
    let s = two_sources_one_header();
    let snap = snapshot(
        vec![Some(200), Some(200), Some(200)],
        vec![true, true, false],
        true,
    );
    // Pretend the header went stale and both includers were recompiled,
    // but only b.cpp succeeded.
    let plan = vec![0usize, 1usize];
    let results = vec![false, true];
    assert!(!all_succeeded(&results));
    let now = 500;
    let frozen_after = s.next_frozen(&snap, &plan, &results, now);
    // a.cpp failed: its record is untouched.
    assert_eq!(frozen_after[0], Some(200));
    // b.cpp succeeded: refreshed.
    assert_eq!(frozen_after[1], Some(now));
    // h.hpp has a failed includer: not frozen.
    assert_eq!(frozen_after[2], Some(200));
}

#[test]
fn untouched_files_freeze_with_a_fully_successful_pass() {
    let s = two_sources_one_header();
    let snap = snapshot(
        vec![Some(200), None, Some(200)],
        vec![true, true, false],
        true,
    );
    let plan = vec![1usize];
    let results = vec![true];
    let frozen_after = s.next_frozen(&snap, &plan, &results, 600);
    assert_eq!(frozen_after, vec![Some(600), Some(600), Some(600)]);
}

#[test]
fn unfrozen_header_schedules_its_includers_again() {
    // After a pass in which one includer of a stale header failed, the
    // header keeps its old record, so the next pass sees it dirty and
    // schedules every includer once more — the failed one among them.
    let cfg = table(vec![("source", text("src"))]);
    let s = Section::new(
        "app".to_string(),
        &cfg,
        Profile::empty("debug"),
        vec![
            file("/src/a.cpp", 100),
            file("/src/b.cpp", 100),
            file("/src/h.hpp", 300),
        ],
        Vec::new(),
        vec![vec![2], vec![2], vec![]],
    )
    .unwrap();
    let after_partial_failure = snapshot(
        vec![Some(200), Some(500), Some(200)],
        vec![true, true, false],
        true,
    );
    assert_eq!(s.dirty_set(&after_partial_failure), vec![2]);
    let plan = s.compile_plan(&after_partial_failure);
    assert!(plan.contains(&0));
    assert!(plan.contains(&1));
    assert_eq!(plan.len(), 2);
}

#[test]
fn snapshot_parses_freeze_records() {
    let stamp = file("/x", 250).modification_time_to_string();
    let records = vec![Some(stamp), Some("garbage".to_string()), None];
    let snap = BuildSnapshot::from_records(&records, vec![true, true, false], true);
    assert_eq!(snap.frozen[0], Some(250));
    assert_eq!(snap.frozen[1], None);
    assert_eq!(snap.frozen[2], None);
    assert!(snap.outlet_present);
}

#[test]
fn all_succeeded_reports_any_failure() {
    assert!(all_succeeded(&Vec::new()));
    assert!(all_succeeded(&vec![true, true]));
    assert!(!all_succeeded(&vec![true, false, true]));
}
