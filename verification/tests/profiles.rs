//! Profiles: the empty profile, config filling, and the preset registry.

use abs::config::ConfigValue;
use abs::profile::{Profile, ProfileError};
use abs::profiles_manager::ProfilesManager;

fn text(s: &str) -> ConfigValue {
    ConfigValue::Text(s.to_string())
}

fn table(entries: Vec<(&str, ConfigValue)>) -> ConfigValue {
    ConfigValue::Table(
        entries
            .into_iter()
            .map(|(k, v)| (k.to_string(), v))
            .collect(),
    )
}

#[test]
fn empty_profile_defaults() {
    let p = Profile::empty("debug");
    assert_eq!(p.name, "debug");
    assert_eq!(p.compiler, "gcc");
    assert_eq!(p.standard, "-std=c++17");
    assert!(p.defines.is_empty());
    assert!(p.options.is_empty());
    assert!(p.linking_options.is_empty());
    assert!(p.linking_directories.is_empty());
    assert!(p.include_directories.is_empty());
}

#[test]
fn from_config_replaces_scalars_and_appends_lists() {
    let cfg = table(vec![
        ("compiler", text("clang++")),
        ("standard", text("-std=c++20")),
        ("defines", ConfigValue::List(vec![text("-DA"), text("-DB")])),
        ("options", text("-O1")),
    ]);
    let p = Profile::from_config("custom", &cfg).unwrap();
    assert_eq!(p.name, "custom");
    assert_eq!(p.compiler, "clang++");
    assert_eq!(p.standard, "-std=c++20");
    assert_eq!(p.defines, vec!["-DA".to_string(), "-DB".to_string()]);
    assert_eq!(p.options, vec!["-O1".to_string()]);
}

#[test]
fn from_config_rejects_wrong_shapes() {
    let bad_scalar = table(vec![("compiler", ConfigValue::Other)]);
    assert!(matches!(
        Profile::from_config("p", &bad_scalar),
        Err(ProfileError::WrongType(_))
    ));
    let bad_list = table(vec![(
        "defines",
        ConfigValue::List(vec![text("-DA"), ConfigValue::Other]),
    )]);
    assert!(matches!(
        Profile::from_config("p", &bad_list),
        Err(ProfileError::WrongType(_))
    ));
    let bad_kind = table(vec![("options", ConfigValue::Other)]);
    assert!(matches!(
        Profile::from_config("p", &bad_kind),
        Err(ProfileError::WrongType(_))
    ));
}

#[test]
fn fill_keeps_what_was_applied_before_the_failure() {
    let cfg = table(vec![
        ("compiler", text("clang++")),
        ("options", ConfigValue::Other),
    ]);
    let mut p = Profile::empty("p");
    assert!(p.fill_from_config(&cfg).is_err());
    assert_eq!(p.compiler, "clang++");
    assert!(p.options.is_empty());
}

#[test]
fn registry_holds_the_six_presets() {
    let m = ProfilesManager::new(None);
    for name in [
        "release",
        "debug",
        "release-unsafe",
        "debug-unsafe",
        "debug-asan",
        "debug-tsan",
    ] {
        let p = m.get(name).unwrap();
        assert_eq!(p.name, name);
        assert_eq!(p.compiler, "g++");
        assert_eq!(p.standard, "-std=c++17");
        assert!(p.options.contains(&"-Wall".to_string()));
    }
    assert!(m.get("nonexistent").is_none());
}

#[test]
fn debug_preset_options_open_with_debug_flags() {
    let m = ProfilesManager::new(None);
    let p = m.get("debug").unwrap();
    assert_eq!(p.options[0], "-O0");
    assert_eq!(p.options[1], "-g3");
    assert_eq!(p.options[2], "-Werror");
    assert_eq!(p.options[3], "-pedantic");
    assert_eq!(p.options.len(), 3 + 24);
}

#[test]
fn sanitizer_presets_carry_their_link_flags() {
    let m = ProfilesManager::new(None);
    let asan = m.get("debug-asan").unwrap();
    assert_eq!(
        asan.linking_options,
        vec![
            "-fsanitize=address".to_string(),
            "-fsanitize=undefined".to_string(),
            "-fsanitize=leak".to_string(),
        ]
    );
    let tsan = m.get("debug-tsan").unwrap();
    assert_eq!(tsan.linking_options, vec!["-fsanitize=thread".to_string()]);
}

#[test]
fn registry_applies_configured_blocks_to_presets() {
    let cfg = table(vec![(
        "debug",
        table(vec![
            ("compiler", text("clang++")),
            ("defines", text("-DDEBUG")),
        ]),
    )]);
    let m = ProfilesManager::new(Some(&cfg));
    let p = m.get("debug").unwrap();
    assert_eq!(p.compiler, "clang++");
    assert_eq!(p.defines, vec!["-DDEBUG".to_string()]);
    let r = m.get("release").unwrap();
    assert_eq!(r.compiler, "g++");
    assert!(r.defines.is_empty());
}

#[test]
fn unknown_profile_blocks_are_ignored() {
    let cfg = table(vec![("exotic", table(vec![("compiler", text("icc"))]))]);
    let m = ProfilesManager::new(Some(&cfg));
    assert!(m.get("exotic").is_none());
    assert_eq!(m.get("debug").unwrap().compiler, "g++");
}

#[test]
fn duplicate_profile_keeps_the_view() {
    let cfg = table(vec![("defines", text("-DX"))]);
    let p = Profile::from_config("p", &cfg).unwrap();
    let q = p.duplicate();
    assert_eq!(q.name, p.name);
    assert_eq!(q.defines, p.defines);
}
