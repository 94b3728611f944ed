//! Path encoding: exact vectors and absence of separators.

use abs::file::File;

#[test]
fn encoding_path() {
    assert_eq!(File::encode_path("/home"), "04home");
    assert_eq!(File::encode_path("home"), "4home");
    assert_eq!(
        File::encode_path("/home/user/dir/projects"),
        "04home4user3dir8projects"
    );
    assert_eq!(File::encode_path("/test/"), "04test");
}

#[test]
fn encoding_boundaries() {
    assert_eq!(File::encode_path(""), "");
    assert_eq!(File::encode_path("/"), "0");
    assert_eq!(File::encode_path("a"), "1a");
}

#[test]
fn encoding_consecutive_separators() {
    assert_eq!(File::encode_path("a//b"), "1a01b");
}

#[test]
fn encoding_has_no_separator() {
    let samples = [
        "/home/user/dir/projects",
        "/a/b/c/d/e/f",
        "///",
        "/src/main.cpp",
        "/usr/include/c++/13/bits/stl_vector.h",
    ];
    for p in samples {
        assert!(!File::encode_path(p).contains('/'));
    }
}

#[test]
fn encoding_long_run_uses_decimal_length() {
    assert_eq!(
        File::encode_path("/abcdefghijkl"),
        "012abcdefghijkl"
    );
}
