//! Build sections.
//!
//! A section is one build target: a set of tracked files (sources, headers,
//! and everything the scanner resolved), the two dependency maps between
//! them, a profile, and an outlet kind.  The maps are derived once at
//! construction: every file's dependency list ends with the file itself, and
//! the reverse map is the exact inverse, so flagging a header stale reaches
//! every translation unit that includes it.

use vstd::prelude::*;

verus! {

use crate::config::ConfigValue;
use crate::config::spec_get;
use crate::file::File;
use crate::file::abs_prefix;
use crate::file::binary_infix;
use crate::file::frozen_infix;
use crate::file::is_source_path;
use crate::file::object_path_spec;
use crate::profile::Profile;
use crate::strutil::find_char;
use crate::strutil::idx_of_char;
use crate::strutil::join_path;
use crate::strutil::str_eq;
use vstd::string::StringExecFns;
use vstd::string::StrSliceExecFns;

/// Failure to read a section's configuration block.
#[derive(Debug)]
pub enum SectionError {
    MandatoryLack(String),
    FieldTypeError(String),
}

/// What a section produces.
#[derive(Debug, Clone, Copy, PartialEq, Eq, Structural)]
pub enum OutletType {
    Executable,
    Library,
    Shared,
}

/// A build target.
#[derive(Debug)]
pub struct Section {
    pub name: String,
    pub outlet_type: OutletType,
    pub profile: Profile,
    pub pipes: Vec<String>,
    pub files: Vec<File>,
    pub include_directories: Vec<String>,
    /// For each file, the files whose dependency lists contain it.
    pub sources_of_dependency: Vec<Vec<usize>>,
    /// For each file, what it depends on — its resolved includes and itself.
    pub dependencies_of_source: Vec<Vec<usize>>,
}

/// `b` occurs in the index list `u`.
pub open spec fn in_list(u: Seq<usize>, b: int) -> bool {
    exists|k: int| 0 <= k < u.len() && u[k] as int == b
}

/// Appending to an index list adds exactly the appended index.
pub proof fn lemma_in_list_push(u: Seq<usize>, x: usize, b: int)
    ensures
        in_list(u.push(x), b) <==> (in_list(u, b) || b == x),
{
    if in_list(u.push(x), b) {
        let k = choose|k: int| 0 <= k < u.push(x).len() && u.push(x)[k] as int == b;
        if k < u.len() {
            assert(u[k] as int == b);
        }
    }
    if in_list(u, b) {
        let k = choose|k: int| 0 <= k < u.len() && u[k] as int == b;
        assert(u.push(x)[k] as int == b);
    }
    if b == x {
        assert(u.push(x)[u.len() as int] as int == b);
    }
}

/// `b` stands in row `a` of an index map.
pub open spec fn edge(m: Seq<Vec<usize>>, a: int, b: int) -> bool {
    0 <= a < m.len() && in_list(m[a]@, b)
}

/// The `source` field: mandatory, a string.
pub open spec fn source_dir_ok(c: ConfigValue) -> bool {
    spec_get(c, "source"@) matches Some(ConfigValue::Text(_))
}

/// The configured source root.
pub open spec fn source_dir_of(c: ConfigValue) -> Seq<char> {
    match spec_get(c, "source"@) {
        Some(ConfigValue::Text(s)) => s@,
        _ => Seq::empty(),
    }
}

/// The `include` field: optional, a string.
pub open spec fn include_dir_ok(c: ConfigValue) -> bool {
    match spec_get(c, "include"@) {
        None => true,
        Some(v) => v is Text,
    }
}

/// The configured include root, if any.
pub open spec fn include_dir_of(c: ConfigValue) -> Option<Seq<char>> {
    match spec_get(c, "include"@) {
        Some(ConfigValue::Text(s)) => Some(s@),
        _ => None,
    }
}

/// The `type` field: optional, one of the three outlet names.
pub open spec fn outlet_ok(c: ConfigValue) -> bool {
    match spec_get(c, "type"@) {
        None => true,
        Some(v) => match v {
            ConfigValue::Text(s) => s@ == "executable"@ || s@ == "library"@ || s@ == "shared"@,
            _ => false,
        },
    }
}

/// The configured outlet kind; absent means an executable.
pub open spec fn outlet_of(c: ConfigValue) -> OutletType {
    match spec_get(c, "type"@) {
        Some(ConfigValue::Text(s)) => if s@ == "library"@ {
            OutletType::Library
        } else if s@ == "shared"@ {
            OutletType::Shared
        } else {
            OutletType::Executable
        },
        _ => OutletType::Executable,
    }
}

/// A pipe entry names another section as `<tank>.<section>`.
pub open spec fn has_dot(e: Seq<char>) -> bool {
    idx_of_char(e, '.') < e.len()
}

/// The section name a pipe entry refers to: the segment between the first
/// dot and the next.
pub open spec fn pipe_target_of(e: Seq<char>) -> Seq<char> {
    let rest = e.skip(idx_of_char(e, '.') + 1);
    rest.take(idx_of_char(rest, '.'))
}

/// The `pipes` field: optional, an array of dotted section references.
pub open spec fn pipes_ok(c: ConfigValue) -> bool {
    match spec_get(c, "pipes"@) {
        None => true,
        Some(v) => match v {
            ConfigValue::List(items) => forall|i: int|
                0 <= i < items@.len() ==> (items@[i] is Text && has_dot(items@[i]->Text_0@)),
            _ => false,
        },
    }
}

/// The section names the pipe entries refer to, in order.
pub open spec fn pipes_of(c: ConfigValue) -> Seq<Seq<char>> {
    match spec_get(c, "pipes"@) {
        Some(ConfigValue::List(items)) => items@.map_values(
            |v: ConfigValue| pipe_target_of(v->Text_0@),
        ),
        _ => Seq::empty(),
    }
}

/// Every field of the section block has an acceptable shape.
pub open spec fn section_config_ok(c: ConfigValue) -> bool {
    &&& source_dir_ok(c)
    &&& include_dir_ok(c)
    &&& outlet_ok(c)
    &&& pipes_ok(c)
}

/// Copy an index list.
fn copy_indices(src: &Vec<usize>) -> (r: Vec<usize>)
    ensures
        r@ == src@,
{
    let n = src.len();
    let mut r: Vec<usize> = Vec::new();
    let mut i: usize = 0;
    while i < n
        invariant
            i <= n,
            n == src@.len(),
            r@ == src@.take(i as int),
        decreases n - i,
    {
        r.push(src[i]);
        proof {
            assert(r@ =~= src@.take(i + 1));
        }
        i = i + 1;
    }
    proof {
        assert(src@.take(n as int) =~= src@);
    }
    r
}

/// Whether an index list holds `x`.
fn contains_idx(v: &Vec<usize>, x: usize) -> (r: bool)
    ensures
        r == in_list(v@, x as int),
{
    let n = v.len();
    let mut i: usize = 0;
    while i < n
        invariant
            i <= n,
            n == v@.len(),
            forall|k: int| 0 <= k < i ==> v@[k] != x,
        decreases n - i,
    {
        if v[i] == x {
            proof {
                assert(v@[i as int] as int == x as int);
            }
            return true;
        }
        i = i + 1;
    }
    false
}

/// Extract the target name of one pipe entry.
fn pipe_target(e: &str) -> (r: Option<String>)
    ensures
        has_dot(e@) ==> (r matches Some(t) && t@ == pipe_target_of(e@)),
        !has_dot(e@) ==> r is None,
{
    let n = e.unicode_len();
    let i = find_char(e, '.');
    if i == n {
        return None;
    }
    let rest = e.substring_char(i + 1, n);
    proof {
        assert(rest@ =~= e@.skip(i + 1));
    }
    let j = find_char(rest, '.');
    let t = rest.substring_char(0, j);
    proof {
        assert(t@ =~= rest@.take(j as int));
    }
    Some(String::from_str(t))
}

impl Section {
    /// The number of tracked files.
    pub open spec fn n(self) -> int {
        self.files@.len() as int
    }

    /// Well-formedness: the maps cover the files, indices stay in range,
    /// every file depends on itself, the reverse map is the exact inverse of
    /// the forward map, and every file record is well formed.
    pub open spec fn wf(self) -> bool {
        &&& self.dependencies_of_source@.len() == self.n()
        &&& self.sources_of_dependency@.len() == self.n()
        &&& forall|a: int, k: int|
            0 <= a < self.n() && 0 <= k < self.dependencies_of_source@[a]@.len()
                ==> (self.dependencies_of_source@[a]@[k] as int) < self.n()
        &&& forall|a: int, k: int|
            0 <= a < self.n() && 0 <= k < self.sources_of_dependency@[a]@.len()
                ==> (self.sources_of_dependency@[a]@[k] as int) < self.n()
        &&& forall|a: int| 0 <= a < self.n() ==> edge(self.dependencies_of_source@, a, a)
        &&& forall|a: int, b: int|
            0 <= a < self.n() && 0 <= b < self.n() ==> (edge(self.sources_of_dependency@, a, b)
                <==> edge(self.dependencies_of_source@, b, a))
        &&& forall|i: int| 0 <= i < self.n() ==> self.files@[i].wf()
    }

    /// The configured source root and optional include root of a section
    /// block, extracted before any file is collected.
    pub fn section_dirs(config: &ConfigValue) -> (r: Result<(String, Option<String>), SectionError>)
        ensures
            r matches Ok(d) ==> source_dir_ok(*config) && include_dir_ok(*config) && d.0@
                == source_dir_of(*config) && (match d.1 {
                Some(inc) => include_dir_of(*config) == Some(inc@),
                None => include_dir_of(*config) is None,
            }),
            r is Err <==> !(source_dir_ok(*config) && include_dir_ok(*config)),
            r matches Err(e) ==> (e is MandatoryLack <==> spec_get(*config, "source"@) is None),
    {
        let source = match config.get("source") {
            None => {
                return Err(
                    SectionError::MandatoryLack(String::from_str("'source' is mandatory field!")),
                );
            },
            Some(v) => match v {
                ConfigValue::Text(s) => s.clone(),
                _ => {
                    return Err(
                        SectionError::FieldTypeError(String::from_str("'source' is string type!")),
                    );
                },
            },
        };
        let include_root = match config.get("include") {
            None => None,
            Some(v) => match v {
                ConfigValue::Text(s) => Some(s.clone()),
                _ => {
                    return Err(
                        SectionError::FieldTypeError(String::from_str("'include' is string type!")),
                    );
                },
            },
        };
        Ok((source, include_root))
    }

    /// Assemble a section from its block, its profile, the files collected
    /// under its roots, the compiler's default include directories, and each
    /// file's resolved dependency indices.  Every dependency list is closed
    /// with the file itself, and the reverse map is derived as the exact
    /// inverse.
    pub fn new(
        name: String,
        config: &ConfigValue,
        profile: Profile,
        files: Vec<File>,
        default_includes: Vec<String>,
        dep_lists: Vec<Vec<usize>>,
    ) -> (r: Result<Section, SectionError>)
        requires
            dep_lists@.len() == files@.len(),
            forall|i: int, k: int|
                0 <= i < dep_lists@.len() && 0 <= k < dep_lists@[i]@.len() ==> (dep_lists@[i]@[k]
                    as int) < files@.len(),
            forall|i: int| 0 <= i < files@.len() ==> files@[i].wf(),
        ensures
            r matches Ok(s) ==> {
                &&& s.wf()
                &&& s.name == name
                &&& s.profile == profile
                &&& s.files == files
                &&& s.outlet_type == outlet_of(*config)
                &&& s.pipes.deep_view() == pipes_of(*config)
                &&& s.include_directories.deep_view() == default_includes.deep_view() + seq![
                    source_dir_of(*config),
                ] + (match include_dir_of(*config) {
                    Some(d) => seq![d],
                    None => Seq::<Seq<char>>::empty(),
                })
                &&& forall|i: int|
                    0 <= i < files@.len() ==> s.dependencies_of_source@[i]@ == dep_lists@[i]@.push(
                        i as usize,
                    )
            },
            r is Ok <==> section_config_ok(*config),
            r matches Err(e) ==> (e is MandatoryLack <==> spec_get(*config, "source"@) is None),
    {
        let dirs = Self::section_dirs(config)?;
        let (source_dir, include_dir) = dirs;

        let outlet_type = match config.get("type") {
            None => OutletType::Executable,
            Some(v) => match v {
                ConfigValue::Text(s) => {
                    if str_eq(s.as_str(), "executable") {
                        proof {
                            reveal_strlit("executable");
                            reveal_strlit("library");
                            reveal_strlit("shared");
                            assert("executable"@.len() == 10);
                            assert("library"@.len() == 7);
                            assert("shared"@.len() == 6);
                            assert(s@ != "library"@ && s@ != "shared"@);
                        }
                        OutletType::Executable
                    } else if str_eq(s.as_str(), "library") {
                        OutletType::Library
                    } else if str_eq(s.as_str(), "shared") {
                        OutletType::Shared
                    } else {
                        return Err(
                            SectionError::FieldTypeError(
                                String::from_str("unexpected outlet type"),
                            ),
                        );
                    }
                },
                _ => {
                    return Err(
                        SectionError::FieldTypeError(String::from_str("Expected string for 'type'")),
                    );
                },
            },
        };

        let mut pipes: Vec<String> = Vec::new();
        match config.get("pipes") {
            None => {
                proof {
                    assert(pipes.deep_view() =~= pipes_of(*config));
                }
            },
            Some(v) => match v {
                ConfigValue::List(items) => {
                    let m = items.len();
                    let mut i: usize = 0;
                    proof {
                        assert(pipes.deep_view() =~= Seq::<Seq<char>>::empty());
                    }
                    while i < m
                        invariant
                            i <= m,
                            m == items@.len(),
                            spec_get(*config, "pipes"@) == Some(ConfigValue::List(*items)),
                            source_dir_ok(*config),
                            include_dir_ok(*config),
                            outlet_ok(*config),
                            forall|k: int|
                                0 <= k < i ==> (items@[k] is Text && has_dot(items@[k]->Text_0@)),
                            pipes.deep_view() =~= items@.take(i as int).map_values(
                                |v: ConfigValue| pipe_target_of(v->Text_0@),
                            ),
                        decreases m - i,
                    {
                        match &items[i] {
                            ConfigValue::Text(e) => {
                                match pipe_target(e.as_str()) {
                                    Some(t) => {
                                        let ghost tv = t@;
                                        let ghost old_pipes = pipes.deep_view();
                                        pipes.push(t);
                                        proof {
                                            assert(items@[i as int]->Text_0@ == e@);
                                            assert(tv == pipe_target_of(items@[i as int]->Text_0@));
                                            assert(pipes.deep_view() =~= old_pipes.push(tv));
                                            assert(pipes.deep_view() =~= items@.take(
                                                i + 1,
                                            ).map_values(
                                                |v: ConfigValue| pipe_target_of(v->Text_0@),
                                            ));
                                        }
                                    },
                                    None => {
                                        proof {
                                            assert(items@[i as int]->Text_0@ == e@);
                                            assert(!has_dot(items@[i as int]->Text_0@));
                                            assert(!pipes_ok(*config));
                                        }
                                        return Err(
                                            SectionError::FieldTypeError(
                                                String::from_str("pipe entry names no section"),
                                            ),
                                        );
                                    },
                                }
                            },
                            _ => {
                                proof {
                                    assert(!(items@[i as int] is Text));
                                    assert(!pipes_ok(*config));
                                }
                                return Err(
                                    SectionError::FieldTypeError(
                                        String::from_str("Wrong type for pipe"),
                                    ),
                                );
                            },
                        }
                        i = i + 1;
                    }
                    proof {
                        assert(items@.take(m as int) =~= items@);
                        assert(pipes.deep_view() =~= pipes_of(*config));
                    }
                },
                _ => {
                    return Err(
                        SectionError::FieldTypeError(String::from_str("pipes must be an array")),
                    );
                },
            },
        }

        let ghost base_dirs = default_includes.deep_view();
        let ghost source_dir_view = source_dir@;
        let mut include_directories = default_includes;
        include_directories.push(source_dir);
        proof {
            assert(include_directories.deep_view() =~= base_dirs.push(source_dir_view));
        }
        match include_dir {
            Some(d) => {
                let ghost dv = d@;
                let ghost with_source = include_directories.deep_view();
                include_directories.push(d);
                proof {
                    assert(include_directories.deep_view() =~= with_source.push(dv));
                }
            },
            None => {},
        }
        proof {
            assert(include_directories.deep_view() =~= base_dirs + seq![
                source_dir_of(*config),
            ] + (match include_dir_of(*config) {
                Some(d) => seq![d],
                None => Seq::<Seq<char>>::empty(),
            }));
        }

        let n = files.len();
        let mut deps: Vec<Vec<usize>> = Vec::new();
        let mut i: usize = 0;
        while i < n
            invariant
                i <= n,
                n == files@.len(),
                n == dep_lists@.len(),
                deps@.len() == i,
                forall|a: int| 0 <= a < i ==> deps@[a]@ == dep_lists@[a]@.push(a as usize),
            decreases n - i,
        {
            let mut l = copy_indices(&dep_lists[i]);
            l.push(i);
            deps.push(l);
            i = i + 1;
        }

        proof {
            assert forall|a: int, k: int| 0 <= a < n && 0 <= k < deps@[a]@.len() implies (
            deps@[a]@[k] as int) < n by {
                let row = deps@[a]@;
                if k < row.len() - 1 {
                    assert(row[k] == dep_lists@[a]@[k]);
                } else {
                    assert(row[k] == a as usize);
                }
            }
        }
        let users = transpose(&deps, n);

        let section = Section {
            name,
            outlet_type,
            profile,
            pipes,
            files,
            include_directories,
            sources_of_dependency: users,
            dependencies_of_source: deps,
        };
        proof {
            assert forall|a: int| 0 <= a < section.n() implies edge(
                section.dependencies_of_source@,
                a,
                a,
            ) by {
                let row = section.dependencies_of_source@[a]@;
                assert(row[row.len() - 1] as int == a);
            }
            assert(section_config_ok(*config));
            assert forall|a: int, k: int|
                0 <= a < section.n() && 0 <= k < section.dependencies_of_source@[a]@.len() implies (
            section.dependencies_of_source@[a]@[k] as int) < section.n() by {
                let row = section.dependencies_of_source@[a]@;
                if k < row.len() - 1 {
                    assert(row[k] == dep_lists@[a]@[k]);
                }
            }
        }
        Ok(section)
    }
}

/// The exact inverse of an index map over `n` rows: `b` stands in row `a`
/// of the result exactly when `a` stands in row `b` of `m`.
fn transpose(m: &Vec<Vec<usize>>, n: usize) -> (r: Vec<Vec<usize>>)
    requires
        m@.len() == n,
        forall|a: int, k: int| 0 <= a < n && 0 <= k < m@[a]@.len() ==> (m@[a]@[k] as int) < n,
    ensures
        r@.len() == n,
        forall|a: int, k: int| 0 <= a < n && 0 <= k < r@[a]@.len() ==> (r@[a]@[k] as int) < n,
        forall|a: int, b: int| 0 <= a < n && 0 <= b < n ==> (edge(r@, a, b) <==> edge(m@, b, a)),
{
    let mut r: Vec<Vec<usize>> = Vec::new();
    let mut i: usize = 0;
    while i < n
        invariant
            i <= n,
            m@.len() == n,
            forall|a: int, k: int| 0 <= a < n && 0 <= k < m@[a]@.len() ==> (m@[a]@[k] as int) < n,
            r@.len() == i,
            forall|a: int, k: int| 0 <= a < i && 0 <= k < r@[a]@.len() ==> (r@[a]@[k] as int) < n,
            forall|a: int, b: int| 0 <= a < i && 0 <= b < n ==> (edge(r@, a, b) <==> edge(m@, b, a)),
        decreases n - i,
    {
        let mut u: Vec<usize> = Vec::new();
        let mut j: usize = 0;
        while j < n
            invariant
                j <= n,
                i < n,
                m@.len() == n,
                forall|k: int| 0 <= k < u@.len() ==> (u@[k] as int) < n,
                forall|b: int| 0 <= b < n ==> (in_list(u@, b) <==> (b < j && edge(m@, b, i as int))),
            decreases n - j,
        {
            let ghost old_u = u@;
            let present = contains_idx(&m[j], i);
            if present {
                u.push(j);
            }
            proof {
                if present {
                    assert(u@ == old_u.push(j));
                    assert(edge(m@, j as int, i as int));
                } else {
                    assert(u@ == old_u);
                    assert(!edge(m@, j as int, i as int));
                }
                assert forall|b: int| 0 <= b < n implies (in_list(u@, b) <==> (b < j + 1 && edge(
                    m@,
                    b,
                    i as int,
                ))) by {
                    if present {
                        lemma_in_list_push(old_u, j, b);
                        assert(u@ == old_u.push(j));
                        assert(in_list(u@, b) <==> (in_list(old_u, b) || b == j));
                    } else {
                        assert(in_list(u@, b) <==> in_list(old_u, b));
                    }
                    assert(in_list(old_u, b) <==> (b < j && edge(m@, b, i as int)));
                }
            }
            j = j + 1;
        }
        let ghost old_r = r@;
        r.push(u);
        proof {
            assert forall|a: int, b: int| 0 <= a < i + 1 && 0 <= b < n implies (edge(r@, a, b)
                <==> edge(m@, b, a)) by {
                if a < i {
                    assert(r@[a] == old_r[a]);
                    assert(edge(r@, a, b) <==> edge(old_r, a, b));
                } else {
                    assert(r@[a] == u);
                }
            }
        }
        i = i + 1;
    }
    r
}

/// The `-I<dir>` arguments for a list of include directories.
pub open spec fn i_flags(dirs: Seq<Seq<char>>) -> Seq<Seq<char>> {
    dirs.map_values(|d: Seq<char>| seq!['-', 'I'] + d)
}

/// Append one `-I<dir>` argument per include directory.
fn push_i_flags(cmd: &mut Vec<String>, dirs: &Vec<String>)
    ensures
        final(cmd).deep_view() == old(cmd).deep_view() + i_flags(dirs.deep_view()),
{
    let n = dirs.len();
    let mut k: usize = 0;
    proof {
        assert(cmd.deep_view() =~= old(cmd).deep_view() + i_flags(dirs.deep_view().take(0)));
    }
    while k < n
        invariant
            k <= n,
            n == dirs@.len(),
            cmd.deep_view() == old(cmd).deep_view() + i_flags(dirs.deep_view().take(k as int)),
        decreases n - k,
    {
        let mut flag = String::from_str("-I");
        flag.append(dirs[k].as_str());
        proof {
            reveal_strlit("-I");
            assert(flag@ =~= seq!['-', 'I'] + dirs.deep_view()[k as int]);
        }
        let ghost before = cmd.deep_view();
        let ghost flag_view = flag@;
        cmd.push(flag);
        proof {
            assert(cmd.deep_view() =~= before.push(flag_view));
            assert(cmd.deep_view() =~= old(cmd).deep_view() + i_flags(
                dirs.deep_view().take(k + 1),
            ));
        }
        k = k + 1;
    }
    proof {
        assert(dirs.deep_view().take(n as int) =~= dirs.deep_view());
    }
}

impl Section {
    /// The `<section>/<profile>` directory that keeps this pair's artifacts
    /// apart from every other pair's.
    pub open spec fn subdir_spec(self) -> Seq<char> {
        self.name@ + seq!['/'] + self.profile.name@
    }

    /// Exec mirror of [`Self::subdir_spec`].
    pub fn subdirectory(&self) -> (r: String)
        ensures
            r@ == self.subdir_spec(),
    {
        join_path(self.name.as_str(), self.profile.name.as_str())
    }

    /// `.abs/<section>/<profile>/binary/`
    pub open spec fn binary_path_spec(self) -> Seq<char> {
        abs_prefix() + self.subdir_spec() + binary_infix()
    }

    /// The directory the object files live in.
    pub fn get_binary_path(&self) -> (r: String)
        ensures
            r@ == self.binary_path_spec(),
    {
        let mut out = String::from_str(".abs/");
        out.append(self.name.as_str());
        out.append("/");
        out.append(self.profile.name.as_str());
        out.append("/binary/");
        proof {
            reveal_strlit(".abs/");
            reveal_strlit("/");
            reveal_strlit("/binary/");
            assert(out@ =~= self.binary_path_spec());
        }
        out
    }

    /// `.abs/<section>/<profile>/frozen/`
    pub open spec fn frozen_path_spec(self) -> Seq<char> {
        abs_prefix() + self.subdir_spec() + frozen_infix()
    }

    /// The directory the freeze records live in.
    pub fn get_frozen_path(&self) -> (r: String)
        ensures
            r@ == self.frozen_path_spec(),
    {
        let mut out = String::from_str(".abs/");
        out.append(self.name.as_str());
        out.append("/");
        out.append(self.profile.name.as_str());
        out.append("/frozen/");
        proof {
            reveal_strlit(".abs/");
            reveal_strlit("/");
            reveal_strlit("/frozen/");
            assert(out@ =~= self.frozen_path_spec());
        }
        out
    }

    /// Where the section's artifact lands, by outlet kind.
    pub open spec fn outlet_path_spec(self) -> Seq<char> {
        match self.outlet_type {
            OutletType::Executable => abs_prefix() + self.subdir_spec() + seq!['/'] + self.name@,
            OutletType::Library => abs_prefix() + self.subdir_spec() + seq!['/', 'l', 'i', 'b']
                + self.name@ + seq!['.', 'a'],
            OutletType::Shared => abs_prefix() + self.subdir_spec() + seq!['/', 'l', 'i', 'b']
                + self.name@ + seq!['.', 's', 'o'],
        }
    }

    /// The path of the section's outlet artifact.
    pub fn get_outlet_path(&self) -> (r: String)
        ensures
            r@ == self.outlet_path_spec(),
    {
        let mut out = String::from_str(".abs/");
        out.append(self.name.as_str());
        out.append("/");
        out.append(self.profile.name.as_str());
        out.append("/");
        match self.outlet_type {
            OutletType::Executable => {
                out.append(self.name.as_str());
            },
            OutletType::Library => {
                out.append("lib");
                out.append(self.name.as_str());
                out.append(".a");
            },
            OutletType::Shared => {
                out.append("lib");
                out.append(self.name.as_str());
                out.append(".so");
            },
        }
        proof {
            reveal_strlit(".abs/");
            reveal_strlit("/");
            reveal_strlit("lib");
            reveal_strlit(".a");
            reveal_strlit(".so");
            assert(out@ =~= self.outlet_path_spec());
        }
        out
    }

    /// Only an executable outlet can be run.
    pub fn is_runnable(&self) -> (r: bool)
        ensures
            r == (self.outlet_type is Executable),
    {
        match self.outlet_type {
            OutletType::Executable => true,
            _ => false,
        }
    }

    /// The full compiler invocation that builds one source's object file:
    /// `<compiler> -c <path> <options…> <standard> <defines…> -I<dir>… -o <object>`.
    pub open spec fn compile_command_spec(self, i: int) -> Seq<Seq<char>> {
        seq![self.profile.compiler@, "-c"@, self.files@[i].path@] + self.profile.options.deep_view()
            + seq![self.profile.standard@] + self.profile.defines.deep_view() + i_flags(
            self.include_directories.deep_view(),
        ) + seq!["-o"@, object_path_spec(self.files@[i].path@, self.subdir_spec())]
    }

    /// Assemble the compile command for one source file.
    pub fn compile_command(&self, i: usize) -> (r: Vec<String>)
        requires
            i < self.n(),
            is_source_path(self.files@[i as int].path@),
        ensures
            r.deep_view() == self.compile_command_spec(i as int),
    {
        let mut cmd: Vec<String> = Vec::new();
        crate::profile::push_string_clone(&mut cmd, &self.profile.compiler);
        crate::profile::push_string(&mut cmd, "-c");
        crate::profile::push_string_clone(&mut cmd, &self.files[i].path);
        crate::profile::extend_strings(&mut cmd, &self.profile.options);
        crate::profile::push_string_clone(&mut cmd, &self.profile.standard);
        crate::profile::extend_strings(&mut cmd, &self.profile.defines);
        push_i_flags(&mut cmd, &self.include_directories);
        crate::profile::push_string(&mut cmd, "-o");
        let subdir = self.subdirectory();
        match self.files[i].get_object_path_in(subdir.as_str()) {
            Ok(object) => {
                let ghost ov = object@;
                let ghost before = cmd.deep_view();
                cmd.push(object);
                proof {
                    assert(cmd.deep_view() =~= before.push(ov));
                    assert(cmd.deep_view() =~= self.compile_command_spec(i as int));
                }
            },
            Err(_) => {
                proof {
                    assert(false);
                }
            },
        }
        cmd
    }

    /// The syntax-only invocation `check` uses — a build without codegen:
    /// `<compiler> <options…> <standard> <defines…> -I<dir>… -fsyntax-only <path>`.
    pub open spec fn check_command_spec(self, i: int) -> Seq<Seq<char>> {
        seq![self.profile.compiler@] + self.profile.options.deep_view() + seq![
            self.profile.standard@,
        ] + self.profile.defines.deep_view() + i_flags(self.include_directories.deep_view())
            + seq!["-fsyntax-only"@, self.files@[i].path@]
    }

    /// Assemble the syntax-only check command for one file.
    pub fn check_command(&self, i: usize) -> (r: Vec<String>)
        requires
            i < self.n(),
        ensures
            r.deep_view() == self.check_command_spec(i as int),
    {
        let mut cmd: Vec<String> = Vec::new();
        crate::profile::push_string_clone(&mut cmd, &self.profile.compiler);
        crate::profile::extend_strings(&mut cmd, &self.profile.options);
        crate::profile::push_string_clone(&mut cmd, &self.profile.standard);
        crate::profile::extend_strings(&mut cmd, &self.profile.defines);
        push_i_flags(&mut cmd, &self.include_directories);
        crate::profile::push_string(&mut cmd, "-fsyntax-only");
        crate::profile::push_string_clone(&mut cmd, &self.files[i].path);
        proof {
            assert(cmd.deep_view() =~= self.check_command_spec(i as int));
        }
        cmd
    }

    /// The link or archive invocation, by outlet kind.  An executable links
    /// with the profile's compiler, a static library archives with
    /// `ar rcs`, and a shared library links with the compiler and `-shared`.
    pub open spec fn link_command_spec(self, objects: Seq<Seq<char>>) -> Seq<Seq<char>> {
        match self.outlet_type {
            OutletType::Executable => seq![self.profile.compiler@]
                + self.profile.linking_directories.deep_view()
                + self.profile.linking_options.deep_view() + objects + seq![
                "-o"@,
                self.outlet_path_spec(),
            ],
            OutletType::Library => seq!["ar"@, "rcs"@, "-o"@, self.outlet_path_spec()] + objects,
            OutletType::Shared => seq![self.profile.compiler@]
                + self.profile.linking_directories.deep_view()
                + self.profile.linking_options.deep_view() + seq!["-shared"@] + objects + seq![
                "-o"@,
                self.outlet_path_spec(),
            ],
        }
    }

    /// Assemble the link command over the objects found in the binary
    /// directory.
    pub fn link_command(&self, objects: &Vec<String>) -> (r: Vec<String>)
        ensures
            r.deep_view() == self.link_command_spec(objects.deep_view()),
    {
        let mut cmd: Vec<String> = Vec::new();
        match self.outlet_type {
            OutletType::Executable => {
                crate::profile::push_string_clone(&mut cmd, &self.profile.compiler);
                crate::profile::extend_strings(&mut cmd, &self.profile.linking_directories);
                crate::profile::extend_strings(&mut cmd, &self.profile.linking_options);
                crate::profile::extend_strings(&mut cmd, objects);
                crate::profile::push_string(&mut cmd, "-o");
                let outlet = self.get_outlet_path();
                let ghost ov = outlet@;
                let ghost before = cmd.deep_view();
                cmd.push(outlet);
                proof {
                    assert(cmd.deep_view() =~= before.push(ov));
                    assert(cmd.deep_view() =~= self.link_command_spec(objects.deep_view()));
                }
            },
            OutletType::Library => {
                crate::profile::push_string(&mut cmd, "ar");
                crate::profile::push_string(&mut cmd, "rcs");
                crate::profile::push_string(&mut cmd, "-o");
                let outlet = self.get_outlet_path();
                let ghost ov = outlet@;
                let ghost before = cmd.deep_view();
                cmd.push(outlet);
                proof {
                    assert(cmd.deep_view() =~= before.push(ov));
                }
                crate::profile::extend_strings(&mut cmd, objects);
                proof {
                    assert(cmd.deep_view() =~= self.link_command_spec(objects.deep_view()));
                }
            },
            OutletType::Shared => {
                crate::profile::push_string_clone(&mut cmd, &self.profile.compiler);
                crate::profile::extend_strings(&mut cmd, &self.profile.linking_directories);
                crate::profile::extend_strings(&mut cmd, &self.profile.linking_options);
                crate::profile::push_string(&mut cmd, "-shared");
                crate::profile::extend_strings(&mut cmd, objects);
                crate::profile::push_string(&mut cmd, "-o");
                let outlet = self.get_outlet_path();
                let ghost ov = outlet@;
                let ghost before = cmd.deep_view();
                cmd.push(outlet);
                proof {
                    assert(cmd.deep_view() =~= before.push(ov));
                    assert(cmd.deep_view() =~= self.link_command_spec(objects.deep_view()));
                }
            },
        }
        cmd
    }
}

} // verus!
