//! Sections: configuration extraction, the dependency maps, artifact paths,
//! and command assembly.

use abs::config::ConfigValue;
use abs::file::File;
use abs::profile::Profile;
use abs::section::{OutletType, Section, SectionError};

fn text(s: &str) -> ConfigValue {
    ConfigValue::Text(s.to_string())
}

fn table(entries: Vec<(&str, ConfigValue)>) -> ConfigValue {
    ConfigValue::Table(
        entries
            .into_iter()
            .map(|(k, v)| (k.to_string(), v))
            .collect(),
    )
}

fn file(path: &str, mtime: i64) -> File {
    File::new(path.to_string(), mtime).unwrap()
}

fn plain_section(cfg: &ConfigValue, files: Vec<File>, deps: Vec<Vec<usize>>) -> Section {
    Section::new(
        "app".to_string(),
        cfg,
        Profile::empty("debug"),
        files,
        Vec::new(),
        deps,
    )
    .unwrap()
}

#[test]
fn section_dirs_extracts_source_and_include() {
    let cfg = table(vec![("source", text("src")), ("include", text("inc"))]);
    let (s, i) = Section::section_dirs(&cfg).unwrap();
    assert_eq!(s, "src");
    assert_eq!(i, Some("inc".to_string()));
    let bare = table(vec![("source", text("src"))]);
    assert_eq!(Section::section_dirs(&bare).unwrap().1, None);
}

#[test]
fn missing_source_is_mandatory_lack() {
    let cfg = table(vec![("include", text("inc"))]);
    assert!(matches!(
        Section::section_dirs(&cfg),
        Err(SectionError::MandatoryLack(_))
    ));
}

#[test]
fn ill_typed_fields_are_field_type_errors() {
    let cfg = table(vec![("source", ConfigValue::Other)]);
    assert!(matches!(
        Section::section_dirs(&cfg),
        Err(SectionError::FieldTypeError(_))
    ));
    let cfg = table(vec![("source", text("src")), ("type", text("plugin"))]);
    assert!(matches!(
        Section::new(
            "app".to_string(),
            &cfg,
            Profile::empty("debug"),
            Vec::new(),
            Vec::new(),
            Vec::new(),
        ),
        Err(SectionError::FieldTypeError(_))
    ));
    let cfg = table(vec![("source", text("src")), ("pipes", text("tank.a"))]);
    assert!(matches!(
        Section::new(
            "app".to_string(),
            &cfg,
            Profile::empty("debug"),
            Vec::new(),
            Vec::new(),
            Vec::new(),
        ),
        Err(SectionError::FieldTypeError(_))
    ));
}

#[test]
fn every_file_depends_on_itself() {
    let cfg = table(vec![("source", text("src"))]);
    let files = vec![
        file("/src/a.cpp", 1),
        file("/src/b.cpp", 1),
        file("/src/h.hpp", 1),
    ];
    let deps = vec![vec![2], vec![2], vec![]];
    let s = plain_section(&cfg, files, deps);
    for (i, list) in s.dependencies_of_source.iter().enumerate() {
        assert!(list.contains(&i));
    }
    assert_eq!(s.dependencies_of_source[0], vec![2, 0]);
    assert_eq!(s.dependencies_of_source[2], vec![2]);
}

#[test]
fn reverse_map_is_the_exact_inverse() {
    let cfg = table(vec![("source", text("src"))]);
    let files = vec![
        file("/src/a.cpp", 1),
        file("/src/b.cpp", 1),
        file("/src/h.hpp", 1),
    ];
    let deps = vec![vec![2], vec![2], vec![]];
    let s = plain_section(&cfg, files, deps);
    assert!(s.sources_of_dependency[2].contains(&0));
    assert!(s.sources_of_dependency[2].contains(&1));
    assert!(s.sources_of_dependency[2].contains(&2));
    assert!(!s.sources_of_dependency[0].contains(&1));
    assert!(s.sources_of_dependency[0].contains(&0));
}

#[test]
fn outlet_kinds_and_their_paths() {
    let exe = table(vec![("source", text("src"))]);
    let s = plain_section(&exe, Vec::new(), Vec::new());
    assert_eq!(s.outlet_type, OutletType::Executable);
    assert_eq!(s.get_outlet_path(), ".abs/app/debug/app");

    let lib = table(vec![("source", text("src")), ("type", text("library"))]);
    let s = plain_section(&lib, Vec::new(), Vec::new());
    assert_eq!(s.outlet_type, OutletType::Library);
    assert_eq!(s.get_outlet_path(), ".abs/app/debug/libapp.a");

    let shared = table(vec![("source", text("src")), ("type", text("shared"))]);
    let s = plain_section(&shared, Vec::new(), Vec::new());
    assert_eq!(s.outlet_type, OutletType::Shared);
    assert_eq!(s.get_outlet_path(), ".abs/app/debug/libapp.so");
}

#[test]
fn only_executables_are_runnable() {
    let lib = table(vec![("source", text("src")), ("type", text("library"))]);
    let s = plain_section(&lib, Vec::new(), Vec::new());
    assert!(!s.is_runnable());
    let exe = table(vec![("source", text("src"))]);
    let s = plain_section(&exe, Vec::new(), Vec::new());
    assert!(s.is_runnable());
}

#[test]
fn artifact_directories() {
    let cfg = table(vec![("source", text("src"))]);
    let s = plain_section(&cfg, Vec::new(), Vec::new());
    assert_eq!(s.subdirectory(), "app/debug");
    assert_eq!(s.get_binary_path(), ".abs/app/debug/binary/");
    assert_eq!(s.get_frozen_path(), ".abs/app/debug/frozen/");
}

#[test]
fn include_directories_follow_defaults_then_roots() {
    let cfg = table(vec![("source", text("src")), ("include", text("inc"))]);
    let s = Section::new(
        "app".to_string(),
        &cfg,
        Profile::empty("debug"),
        Vec::new(),
        vec!["/usr/include".to_string()],
        Vec::new(),
    )
    .unwrap();
    assert_eq!(
        s.include_directories,
        vec!["/usr/include".to_string(), "src".to_string(), "inc".to_string()]
    );
}

#[test]
fn pipes_name_their_target_sections() {
    let cfg = table(vec![
        ("source", text("src")),
        (
            "pipes",
            ConfigValue::List(vec![text("tank.core"), text("tank.util.extra")]),
        ),
    ]);
    let s = plain_section(&cfg, Vec::new(), Vec::new());
    assert_eq!(s.pipes, vec!["core".to_string(), "util".to_string()]);
}

#[test]
fn dotless_pipe_entries_are_rejected() {
    let cfg = table(vec![
        ("source", text("src")),
        ("pipes", ConfigValue::List(vec![text("core")])),
    ]);
    assert!(matches!(
        Section::new(
            "app".to_string(),
            &cfg,
            Profile::empty("debug"),
            Vec::new(),
            Vec::new(),
            Vec::new(),
        ),
        Err(SectionError::FieldTypeError(_))
    ));
}

#[test]
fn compile_command_lists_every_flag_in_order() {
    let cfg = table(vec![("source", text("src"))]);
    let mut profile = Profile::empty("debug");
    profile.options = vec!["-O0".to_string()];
    profile.defines = vec!["-DX".to_string()];
    let s = Section::new(
        "app".to_string(),
        &cfg,
        profile,
        vec![file("/src/a.cpp", 1)],
        vec!["/usr/include".to_string()],
        vec![vec![]],
    )
    .unwrap();
    assert_eq!(
        s.compile_command(0),
        vec![
            "gcc",
            "-c",
            "/src/a.cpp",
            "-O0",
            "-std=c++17",
            "-DX",
            "-I/usr/include",
            "-Isrc",
            "-o",
            ".abs/app/debug/binary/03src1a.o",
        ]
    );
}

#[test]
fn check_command_is_a_build_without_codegen() {
    let cfg = table(vec![("source", text("src"))]);
    let mut profile = Profile::empty("debug");
    profile.compiler = "clang++".to_string();
    let s = Section::new(
        "app".to_string(),
        &cfg,
        profile,
        vec![file("/src/a.cpp", 1)],
        Vec::new(),
        vec![vec![]],
    )
    .unwrap();
    assert_eq!(
        s.check_command(0),
        vec!["clang++", "-std=c++17", "-Isrc", "-fsyntax-only", "/src/a.cpp"]
    );
}

#[test]
fn link_commands_by_outlet_kind() {
    let objects = vec!["/o/a.o".to_string(), "/o/b.o".to_string()];

    let exe = table(vec![("source", text("src"))]);
    let s = plain_section(&exe, Vec::new(), Vec::new());
    assert_eq!(
        s.link_command(&objects),
        vec!["gcc", "/o/a.o", "/o/b.o", "-o", ".abs/app/debug/app"]
    );

    let lib = table(vec![("source", text("src")), ("type", text("library"))]);
    let s = plain_section(&lib, Vec::new(), Vec::new());
    assert_eq!(
        s.link_command(&objects),
        vec!["ar", "rcs", "-o", ".abs/app/debug/libapp.a", "/o/a.o", "/o/b.o"]
    );

    let shared = table(vec![("source", text("src")), ("type", text("shared"))]);
    let s = plain_section(&shared, Vec::new(), Vec::new());
    assert_eq!(
        s.link_command(&objects),
        vec![
            "gcc",
            "-shared",
            "/o/a.o",
            "/o/b.o",
            "-o",
            ".abs/app/debug/libapp.so"
        ]
    );
}
