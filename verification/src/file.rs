//! Tracked files: a canonical path plus a modification-time snapshot, and
//! the artifact paths derived from a file (object file, freeze record).

use vstd::prelude::*;

verus! {

use crate::clock::freeze_time_of;
use crate::clock::time_string_of;
use crate::codec::encode_spec;
use crate::strutil::ends_with;
use crate::strutil::str_ends_with;
use vstd::string::StringExecFns;
use vstd::string::StrSliceExecFns;

/// Failure to take a file's snapshot or to derive an artifact name from it.
#[derive(Debug)]
pub enum FileError {
    CantGetMetadata(String),
    ModificationTimeUnavailable(String),
    FileDoesntExist(String),
    WrongPostfix(String),
}

/// An immutable record of a canonical path and the file's modification time,
/// in whole seconds.  Identity is the path; the time is a snapshot.
#[derive(Debug, Clone)]
pub struct File {
    pub path: String,
    pub last_modification: i64,
}

/// `.abs/`
pub open spec fn abs_prefix() -> Seq<char> {
    seq!['.', 'a', 'b', 's', '/']
}

/// `/binary/`
pub open spec fn binary_infix() -> Seq<char> {
    seq!['/', 'b', 'i', 'n', 'a', 'r', 'y', '/']
}

/// `/frozen/`
pub open spec fn frozen_infix() -> Seq<char> {
    seq!['/', 'f', 'r', 'o', 'z', 'e', 'n', '/']
}

/// `.cpp`
pub open spec fn cpp_suffix() -> Seq<char> {
    seq!['.', 'c', 'p', 'p']
}

/// `.c`
pub open spec fn c_suffix() -> Seq<char> {
    seq!['.', 'c']
}

/// `.hpp`
pub open spec fn hpp_suffix() -> Seq<char> {
    seq!['.', 'h', 'p', 'p']
}

/// `.h`
pub open spec fn h_suffix() -> Seq<char> {
    seq!['.', 'h']
}

/// A compilable translation unit: a C or C++ source.
pub open spec fn is_source_path(p: Seq<char>) -> bool {
    ends_with(p, cpp_suffix()) || ends_with(p, c_suffix())
}

/// A header; headers are tracked and scanned but never compiled.
pub open spec fn is_header_path(p: Seq<char>) -> bool {
    ends_with(p, hpp_suffix()) || ends_with(p, h_suffix())
}

/// The source path without its `.cpp` or `.c` suffix.
pub open spec fn stripped_source(p: Seq<char>) -> Seq<char> {
    if ends_with(p, cpp_suffix()) {
        p.take(p.len() - 4)
    } else if ends_with(p, c_suffix()) {
        p.take(p.len() - 2)
    } else {
        p
    }
}

/// Object-file path of source `p` under `.abs/<subdir>/binary/`.
pub open spec fn object_path_spec(p: Seq<char>, subdir: Seq<char>) -> Seq<char> {
    abs_prefix() + subdir + binary_infix() + encode_spec(stripped_source(p)) + seq!['.', 'o']
}

/// Freeze-record path of file `p` under `.abs/<subdir>/frozen/`.
pub open spec fn freeze_path_spec(p: Seq<char>, subdir: Seq<char>) -> Seq<char> {
    abs_prefix() + subdir + frozen_infix() + encode_spec(p)
}

/// Whether a path names a file the engine tracks: a C/C++ source or a
/// header.  Directory walks collect exactly these.
pub fn is_tracked_path(path: &str) -> (r: bool)
    ensures
        r == (is_source_path(path@) || is_header_path(path@)),
{
    let cpp = str_ends_with(path, ".cpp");
    let c = str_ends_with(path, ".c");
    let hpp = str_ends_with(path, ".hpp");
    let h = str_ends_with(path, ".h");
    proof {
        reveal_strlit(".cpp");
        reveal_strlit(".c");
        reveal_strlit(".hpp");
        reveal_strlit(".h");
        assert(".cpp"@ =~= cpp_suffix());
        assert(".c"@ =~= c_suffix());
        assert(".hpp"@ =~= hpp_suffix());
        assert(".h"@ =~= h_suffix());
    }
    cpp || c || hpp || h
}

/// No path is both a source and a header.
pub proof fn lemma_source_header_disjoint(p: Seq<char>)
    ensures
        !(is_source_path(p) && is_header_path(p)),
{
    if is_source_path(p) && is_header_path(p) {
        assert(p[p.len() - 1] != p[p.len() - 1]);
    }
}

impl File {
    /// A well-formed file: absolute path, timestamp inside the engine's range.
    pub open spec fn wf(self) -> bool {
        &&& self.path@.len() > 0
        &&& self.path@[0] == '/'
        &&& 0 <= self.last_modification < crate::MAX_TIME_SECONDS
    }

    /// The snapshot's modification time.
    pub fn modified_seconds(&self) -> (r: i64)
        ensures
            r == self.last_modification,
    {
        self.last_modification
    }

    /// Spec view of the modification time.
    pub open spec fn mtime(self) -> i64 {
        self.last_modification
    }

    /// Build a file record from an already-canonicalized path and a
    /// modification time read from the filesystem.
    pub fn new(path: String, last_modification: i64) -> (r: Result<File, FileError>)
        ensures
            r matches Ok(f) ==> f == (File { path, last_modification }) && f.wf(),
            r is Err <==> !(path@.len() > 0 && path@[0] == '/' && 0 <= last_modification
                < crate::MAX_TIME_SECONDS),
    {
        if path.as_str().unicode_len() == 0 || path.as_str().get_char(0) != '/' {
            return Err(FileError::FileDoesntExist(String::from_str("path is not absolute")));
        }
        if last_modification < 0 || last_modification >= crate::MAX_TIME_SECONDS {
            return Err(
                FileError::ModificationTimeUnavailable(
                    String::from_str("modification time out of range"),
                ),
            );
        }
        Ok(File { path, last_modification })
    }

    /// Encode a path into a separator-free artifact name.
    pub fn encode_path(path: &str) -> (r: String)
        ensures
            r@ == encode_spec(path@),
    {
        crate::codec::encode_path(path)
    }

    /// Whether this file is a compilable source.
    pub fn is_source(&self) -> (r: bool)
        ensures
            r == is_source_path(self.path@),
    {
        let cpp = str_ends_with(self.path.as_str(), ".cpp");
        let c = str_ends_with(self.path.as_str(), ".c");
        proof {
            reveal_strlit(".cpp");
            reveal_strlit(".c");
            assert(".cpp"@ =~= cpp_suffix());
            assert(".c"@ =~= c_suffix());
        }
        cpp || c
    }

    /// Whether this file is a header.
    pub fn is_header(&self) -> (r: bool)
        ensures
            r == is_header_path(self.path@),
    {
        let hpp = str_ends_with(self.path.as_str(), ".hpp");
        let h = str_ends_with(self.path.as_str(), ".h");
        proof {
            reveal_strlit(".hpp");
            reveal_strlit(".h");
            assert(".hpp"@ =~= hpp_suffix());
            assert(".h"@ =~= h_suffix());
        }
        hpp || h
    }

    /// Object-file path of this source inside the given
    /// `<section>/<profile>` subdirectory, or `WrongPostfix` for a file that
    /// is not a C or C++ source.
    pub fn get_object_path_in(&self, subdirectory: &str) -> (r: Result<String, FileError>)
        ensures
            is_source_path(self.path@) ==> (r matches Ok(s) && s@ == object_path_spec(
                self.path@,
                subdirectory@,
            )),
            !is_source_path(self.path@) ==> (r matches Err(e) && e is WrongPostfix),
    {
        let n = self.path.as_str().unicode_len();
        let stripped: &str;
        if str_ends_with(self.path.as_str(), ".cpp") {
            proof {
                reveal_strlit(".cpp");
            }
            stripped = self.path.as_str().substring_char(0, n - 4);
        } else if str_ends_with(self.path.as_str(), ".c") {
            proof {
                reveal_strlit(".cpp");
                reveal_strlit(".c");
            }
            stripped = self.path.as_str().substring_char(0, n - 2);
        } else {
            proof {
                reveal_strlit(".cpp");
                reveal_strlit(".c");
                assert(".cpp"@ =~= cpp_suffix());
                assert(".c"@ =~= c_suffix());
            }
            return Err(FileError::WrongPostfix(String::from_str("neither C nor C++")));
        }
        proof {
            assert(".cpp"@ =~= cpp_suffix());
            reveal_strlit(".c");
            assert(".c"@ =~= c_suffix());
            assert(stripped@ =~= stripped_source(self.path@));
        }
        let encoded = crate::codec::encode_path(stripped);
        let mut out = String::from_str(".abs/");
        out.append(subdirectory);
        out.append("/binary/");
        out.append(encoded.as_str());
        out.append(".o");
        proof {
            reveal_strlit(".abs/");
            reveal_strlit("/binary/");
            reveal_strlit(".o");
            assert(out@ =~= object_path_spec(self.path@, subdirectory@));
        }
        Ok(out)
    }

    /// Freeze-record path of this file inside the given
    /// `<section>/<profile>` subdirectory.
    pub fn get_freeze_path_in(&self, subdirectory: &str) -> (r: String)
        ensures
            r@ == freeze_path_spec(self.path@, subdirectory@),
    {
        let encoded = crate::codec::encode_path(self.path.as_str());
        let mut out = String::from_str(".abs/");
        out.append(subdirectory);
        out.append("/frozen/");
        out.append(encoded.as_str());
        proof {
            reveal_strlit(".abs/");
            reveal_strlit("/frozen/");
            assert(out@ =~= freeze_path_spec(self.path@, subdirectory@));
        }
        out
    }

    /// Staleness against a freeze time: stale when no freeze record exists
    /// or the file changed after it was last frozen.
    pub open spec fn modified_given(self, frozen: Option<i64>) -> bool {
        match frozen {
            None => true,
            Some(t) => self.last_modification > t,
        }
    }

    /// Exec mirror of [`Self::modified_given`].
    pub fn is_modified_given(&self, frozen: Option<i64>) -> (r: bool)
        ensures
            r == self.modified_given(frozen),
    {
        match frozen {
            None => true,
            Some(t) => self.last_modification > t,
        }
    }

    /// Staleness against the raw contents of the freeze record, if one
    /// exists: an unreadable or unparsable record counts as stale.
    pub open spec fn modified_rec(self, record: Option<Seq<char>>) -> bool {
        match record {
            None => true,
            Some(line) => self.modified_given(freeze_time_of(line)),
        }
    }

    /// Decide staleness from the freeze-record line read from disk.
    pub fn is_modified_in(&self, record: Option<&str>) -> (r: bool)
        ensures
            r == self.modified_rec(
                match record {
                    Some(line) => Some(line@),
                    None => None,
                },
            ),
    {
        match record {
            None => true,
            Some(line) => {
                let t = crate::clock::parse_freeze_line(line);
                self.is_modified_given(t)
            },
        }
    }

    /// The modification time rendered in the freeze-record format.
    pub fn modification_time_to_string(&self) -> (r: String)
        requires
            self.wf(),
        ensures
            r@ == time_string_of(self.last_modification as int),
    {
        crate::clock::format_timestamp(self.last_modification)
    }
}

} // verus!
