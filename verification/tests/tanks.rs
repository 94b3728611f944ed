//! Tank validation, configuration lookup, and dependency resolution.

use abs::config::ConfigValue;
use abs::dependency::Dependency;
use abs::profiles_manager::ProfilesManager;
use abs::strutil::parent_dir;
use abs::tank::{Tank, TankError};

fn text(s: &str) -> ConfigValue {
    ConfigValue::Text(s.to_string())
}

fn table(entries: Vec<(&str, ConfigValue)>) -> ConfigValue {
    ConfigValue::Table(
        entries
            .into_iter()
            .map(|(k, v)| (k.to_string(), v))
            .collect(),
    )
}

#[test]
fn tank_takes_its_name_and_version() {
    let cfg = table(vec![(
        "tank",
        table(vec![("name", text("demo")), ("version", text("0.1.0"))]),
    )]);
    let t = Tank::new(&cfg, Vec::new(), ProfilesManager::new(None)).unwrap();
    assert_eq!(t.name, "demo");
    assert_eq!(t.version, "0.1.0");
    assert!(t.get_sections().is_empty());
}

#[test]
fn missing_mandatory_fields_are_reported() {
    let no_table = table(vec![]);
    assert!(matches!(
        Tank::new(&no_table, Vec::new(), ProfilesManager::new(None)),
        Err(TankError::MandatoryLack(_))
    ));
    let no_name = table(vec![("tank", table(vec![("version", text("0.1.0"))]))]);
    assert!(matches!(
        Tank::new(&no_name, Vec::new(), ProfilesManager::new(None)),
        Err(TankError::MandatoryLack(_))
    ));
    let no_version = table(vec![("tank", table(vec![("name", text("demo"))]))]);
    assert!(matches!(
        Tank::new(&no_version, Vec::new(), ProfilesManager::new(None)),
        Err(TankError::MandatoryLack(_))
    ));
}

#[test]
fn ill_typed_identity_fields_are_reported() {
    let bad_name = table(vec![(
        "tank",
        table(vec![("name", ConfigValue::Other), ("version", text("1"))]),
    )]);
    assert!(matches!(
        Tank::new(&bad_name, Vec::new(), ProfilesManager::new(None)),
        Err(TankError::WrongTypeOfField(_))
    ));
    let bad_version = table(vec![(
        "tank",
        table(vec![("name", text("demo")), ("version", ConfigValue::Other)]),
    )]);
    assert!(matches!(
        Tank::new(&bad_version, Vec::new(), ProfilesManager::new(None)),
        Err(TankError::WrongTypeOfField(_))
    ));
}

#[test]
fn config_lookup_finds_the_first_binding() {
    let cfg = table(vec![("a", text("one")), ("b", text("two"))]);
    assert!(matches!(cfg.get("a"), Some(ConfigValue::Text(s)) if s == "one"));
    assert!(matches!(cfg.get("b"), Some(ConfigValue::Text(s)) if s == "two"));
    assert!(cfg.get("c").is_none());
    assert!(text("x").get("a").is_none());
}

#[test]
fn dependency_probing_answers_from_the_disk() {
    let dep = Dependency::new(String::new());
    assert!(dep.is_exist_in("/"));
    let ghost_dep = Dependency::new("definitely-not-a-real-header.hpp".to_string());
    assert!(!ghost_dep.is_exist_in("/nonexistent-root-for-these-tests"));
    assert_eq!(
        ghost_dep.get_file_from_path(&vec!["/nonexistent-root-for-these-tests".to_string()]),
        None
    );
}

#[test]
fn the_chooser_takes_the_first_probe_that_hit() {
    let dep = Dependency::new("h.hpp".to_string());
    let dirs = vec!["/one".to_string(), "/two".to_string(), "/three".to_string()];
    assert_eq!(
        dep.pick_first(&dirs, &vec![false, true, true]),
        Some("/two/h.hpp".to_string())
    );
    assert_eq!(
        dep.pick_first(&dirs, &vec![true, false, true]),
        Some("/one/h.hpp".to_string())
    );
    assert_eq!(dep.pick_first(&dirs, &vec![false, false, false]), None);
}

#[test]
fn resolution_takes_the_first_directory_that_has_the_name() {
    let dep = Dependency::new(String::new());
    let dirs = vec!["/nonexistent-root-for-these-tests".to_string(), "/".to_string()];
    assert_eq!(dep.get_file_from_path(&dirs), Some("//".to_string()));
}

#[test]
fn parent_of_an_absolute_path() {
    assert_eq!(parent_dir("/src/a.cpp"), "/src");
    assert_eq!(parent_dir("/a"), "/");
    assert_eq!(parent_dir("/usr/local/lib"), "/usr/local");
}
