//! Textual include scanning.
//!
//! A source is read line by line; a line that opens with `#include ` names a
//! dependency.  The remainder of the line is trimmed and stripped of its
//! surrounding delimiters (`"…"` or `<…>`) — both kinds resolve against the
//! same search list.  The scanner is one hop deep: headers are scanned like
//! sources, and transitive effects come from the reverse index, not from
//! chasing headers.  A directive whose remainder is too short to hold two
//! delimiters is ignored.
//!
//! The same module extracts the compiler's default search directories from
//! the preprocessor's verbose output, where every reported directory is a
//! line opening with a single space.

use vstd::prelude::*;

verus! {

use crate::strutil::starts_with;
use crate::strutil::str_starts_with;
use crate::strutil::str_trim;
use crate::strutil::trimmed;
use vstd::string::StringExecFns;
use vstd::string::StrSliceExecFns;

/// `#include ` — the directive keyword and its separating space.
pub open spec fn include_prefix() -> Seq<char> {
    seq!['#', 'i', 'n', 'c', 'l', 'u', 'd', 'e', ' ']
}

/// A line that names a dependency.
pub open spec fn is_include_line(l: Seq<char>) -> bool {
    starts_with(l, include_prefix()) && trimmed(l.skip(9)).len() >= 2
}

/// The include name of a directive line: the trimmed remainder without its
/// two delimiter characters.
pub open spec fn include_name_of(l: Seq<char>) -> Seq<char> {
    let t = trimmed(l.skip(9));
    t.subrange(1, t.len() - 1)
}

/// The include names of a whole file, in line order.
pub open spec fn includes_of(lines: Seq<Seq<char>>) -> Seq<Seq<char>>
    decreases lines.len(),
{
    if lines.len() == 0 {
        Seq::empty()
    } else {
        includes_of(lines.drop_last()) + if is_include_line(lines.last()) {
            seq![include_name_of(lines.last())]
        } else {
            Seq::empty()
        }
    }
}

/// Extract the include name of one line, if the line is a directive.
pub fn parse_include_line(line: &str) -> (r: Option<String>)
    ensures
        is_include_line(line@) ==> (r matches Some(n) && n@ == include_name_of(line@)),
        !is_include_line(line@) ==> r is None,
{
    proof {
        reveal_strlit("#include ");
        assert("#include "@ =~= include_prefix());
    }
    if !str_starts_with(line, "#include ") {
        return None;
    }
    let n = line.unicode_len();
    let rest = line.substring_char(9, n);
    proof {
        assert(rest@ =~= line@.skip(9));
    }
    let t = str_trim(rest);
    let tl = t.unicode_len();
    if tl < 2 {
        return None;
    }
    let name = t.substring_char(1, tl - 1);
    Some(String::from_str(name))
}

/// Scan a file's lines for the dependencies they name, in order.
pub fn scan_include_names(lines: &Vec<String>) -> (r: Vec<String>)
    ensures
        r.deep_view() == includes_of(lines.deep_view()),
{
    let n = lines.len();
    let mut r: Vec<String> = Vec::new();
    let mut i: usize = 0;
    proof {
        assert(lines.deep_view().take(0) =~= Seq::<Seq<char>>::empty());
        assert(r.deep_view() =~= includes_of(lines.deep_view().take(0)));
    }
    while i < n
        invariant
            i <= n,
            n == lines@.len(),
            n == lines.deep_view().len(),
            r.deep_view() == includes_of(lines.deep_view().take(i as int)),
        decreases n - i,
    {
        let ghost prefix = lines.deep_view().take(i + 1);
        proof {
            assert(prefix.drop_last() =~= lines.deep_view().take(i as int));
            assert(prefix.last() == lines.deep_view()[i as int]);
            assert(lines.deep_view()[i as int] == lines@[i as int]@);
        }
        match parse_include_line(lines[i].as_str()) {
            Some(name) => {
                r.push(name);
                proof {
                    assert(r.deep_view() =~= includes_of(prefix));
                }
            },
            None => {
                proof {
                    assert(r.deep_view() =~= includes_of(prefix));
                }
            },
        }
        i = i + 1;
    }
    proof {
        assert(lines.deep_view().take(n as int) =~= lines.deep_view());
    }
    r
}

/// No directive, no dependency: a file without include lines scans to
/// nothing, so its graph entry holds the file itself alone.
pub proof fn lemma_no_includes_scan_empty(lines: Seq<Seq<char>>)
    requires
        forall|i: int| 0 <= i < lines.len() ==> !is_include_line(lines[i]),
    ensures
        includes_of(lines).len() == 0,
    decreases lines.len(),
{
    if lines.len() > 0 {
        lemma_no_includes_scan_empty(lines.drop_last());
    }
}

/// A reported search directory: a line opening with one space, holding
/// something after it.
pub open spec fn is_search_dir_line(l: Seq<char>) -> bool {
    l.len() >= 2 && l[0] == ' '
}

/// The default search directories of the preprocessor's verbose output:
/// every line opening with a single space, with that space removed and
/// empty results dropped.
pub open spec fn search_dirs_of(lines: Seq<Seq<char>>) -> Seq<Seq<char>>
    decreases lines.len(),
{
    if lines.len() == 0 {
        Seq::empty()
    } else {
        search_dirs_of(lines.drop_last()) + if is_search_dir_line(lines.last()) {
            seq![lines.last().skip(1)]
        } else {
            Seq::empty()
        }
    }
}

/// Extract the compiler's default include directories from the verbose
/// preprocessor output handed in as lines.
pub fn default_include_dirs(output_lines: &Vec<String>) -> (r: Vec<String>)
    ensures
        r.deep_view() == search_dirs_of(output_lines.deep_view()),
{
    let n = output_lines.len();
    let mut r: Vec<String> = Vec::new();
    let mut i: usize = 0;
    proof {
        assert(output_lines.deep_view().take(0) =~= Seq::<Seq<char>>::empty());
        assert(r.deep_view() =~= search_dirs_of(output_lines.deep_view().take(0)));
    }
    while i < n
        invariant
            i <= n,
            n == output_lines@.len(),
            n == output_lines.deep_view().len(),
            r.deep_view() == search_dirs_of(output_lines.deep_view().take(i as int)),
        decreases n - i,
    {
        let ghost prefix = output_lines.deep_view().take(i + 1);
        proof {
            assert(prefix.drop_last() =~= output_lines.deep_view().take(i as int));
            assert(prefix.last() == output_lines@[i as int]@);
        }
        let line = output_lines[i].as_str();
        let len = line.unicode_len();
        if len >= 2 && line.get_char(0) == ' ' {
            let dir = line.substring_char(1, len);
            proof {
                assert(dir@ =~= line@.skip(1));
            }
            r.push(String::from_str(dir));
            proof {
                assert(r.deep_view() =~= search_dirs_of(prefix));
            }
        } else {
            proof {
                assert(r.deep_view() =~= search_dirs_of(prefix));
            }
        }
        i = i + 1;
    }
    proof {
        assert(output_lines.deep_view().take(n as int) =~= output_lines.deep_view());
    }
    r
}

} // verus!
