//! File records: artifact paths, freshness, and timestamp rendering.

use abs::file::{File, FileError};

fn file(path: &str, mtime: i64) -> File {
    File::new(path.to_string(), mtime).unwrap()
}

#[test]
fn object_path_strips_the_source_suffix() {
    let f = file("/src/a.cpp", 100);
    assert_eq!(
        f.get_object_path_in("app/debug").unwrap(),
        ".abs/app/debug/binary/03src1a.o"
    );
    let g = file("/src/b.c", 100);
    assert_eq!(
        g.get_object_path_in("app/debug").unwrap(),
        ".abs/app/debug/binary/03src1b.o"
    );
}

#[test]
fn object_path_rejects_non_sources() {
    let f = file("/src/h.hpp", 100);
    assert!(matches!(
        f.get_object_path_in("app/debug"),
        Err(FileError::WrongPostfix(_))
    ));
}

#[test]
fn freeze_path_encodes_the_whole_path() {
    let f = file("/src/a.cpp", 100);
    assert_eq!(
        f.get_freeze_path_in("app/debug"),
        ".abs/app/debug/frozen/03src5a.cpp"
    );
}

#[test]
fn construction_rejects_bad_parts() {
    assert!(matches!(
        File::new("relative/path.cpp".to_string(), 100),
        Err(FileError::FileDoesntExist(_))
    ));
    assert!(matches!(
        File::new(String::new(), 100),
        Err(FileError::FileDoesntExist(_))
    ));
    assert!(matches!(
        File::new("/a.cpp".to_string(), -1),
        Err(FileError::ModificationTimeUnavailable(_))
    ));
    assert!(matches!(
        File::new("/a.cpp".to_string(), i64::MAX),
        Err(FileError::ModificationTimeUnavailable(_))
    ));
}

#[test]
fn suffix_classification() {
    assert!(file("/a.cpp", 0).is_source());
    assert!(file("/a.c", 0).is_source());
    assert!(!file("/a.hpp", 0).is_source());
    assert!(file("/a.hpp", 0).is_header());
    assert!(file("/a.h", 0).is_header());
    assert!(!file("/a.cpp", 0).is_header());
}

#[test]
fn modification_against_freeze_times() {
    let f = file("/src/a.cpp", 100);
    assert!(f.is_modified_given(None));
    assert!(f.is_modified_given(Some(99)));
    assert!(!f.is_modified_given(Some(100)));
    assert!(!f.is_modified_given(Some(101)));
}

#[test]
fn modification_time_renders_in_freeze_format() {
    let f = file("/src/a.cpp", 0);
    assert_eq!(f.modification_time_to_string(), "1970-01-01/00:00:00");
    let g = file("/src/a.cpp", 1700000000);
    assert_eq!(g.modification_time_to_string(), "2023-11-14/22:13:20");
}

#[test]
fn freeze_records_round_trip_through_text() {
    let f = file("/src/a.cpp", 100);
    let older = file("/x", 50).modification_time_to_string();
    let same = file("/x", 100).modification_time_to_string();
    let newer = file("/x", 150).modification_time_to_string();
    assert!(f.is_modified_in(Some(older.as_str())));
    assert!(!f.is_modified_in(Some(same.as_str())));
    assert!(!f.is_modified_in(Some(newer.as_str())));
    assert!(f.is_modified_in(None));
}

#[test]
fn unreadable_freeze_records_count_as_stale() {
    let f = file("/src/a.cpp", 100);
    assert!(f.is_modified_in(Some("not a timestamp")));
    assert!(f.is_modified_in(Some("")));
}
