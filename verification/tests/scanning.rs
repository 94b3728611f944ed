//! Include scanning and compiler search-path extraction.

use abs::scan::{default_include_dirs, parse_include_line, scan_include_names};

#[test]
fn include_lines_yield_their_names() {
    let lines = vec![
        "#include \"h.hpp\"".to_string(),
        "int main() {}".to_string(),
        "#include <vector>".to_string(),
    ];
    let names = scan_include_names(&lines);
    assert_eq!(names, vec!["h.hpp".to_string(), "vector".to_string()]);
}

#[test]
fn no_directives_scan_to_nothing() {
    let lines = vec![
        "int main() {}".to_string(),
        "// #not an include".to_string(),
        String::new(),
    ];
    assert_eq!(scan_include_names(&lines), Vec::<String>::new());
}

#[test]
fn directive_remainder_is_trimmed() {
    assert_eq!(
        parse_include_line("#include   \"x.h\"  "),
        Some("x.h".to_string())
    );
}

#[test]
fn non_directives_are_ignored() {
    assert_eq!(parse_include_line("x#include \"x.h\""), None);
    assert_eq!(parse_include_line("#includes \"x.h\""), None);
    assert_eq!(parse_include_line("#include "), None);
}

#[test]
fn search_dirs_come_from_space_led_lines() {
    let output = vec![
        "#include <...> search starts here:".to_string(),
        " /usr/include".to_string(),
        " /usr/local/include".to_string(),
        "End of search list.".to_string(),
        " ".to_string(),
    ];
    let dirs = default_include_dirs(&output);
    assert_eq!(
        dirs,
        vec!["/usr/include".to_string(), "/usr/local/include".to_string()]
    );
}
