//! The configuration document, as plain data.
//!
//! The engine reads a small subset of a parsed configuration: strings,
//! arrays, and tables of named values.  Anything else is carried as
//! [`ConfigValue::Other`], which every reader treats as a type error.
//! The binary around the library parses the document text and converts it
//! into this shape before handing it over.

use vstd::prelude::*;

verus! {

use crate::strutil::str_eq;

/// One configuration value.
#[derive(Debug)]
pub enum ConfigValue {
    /// A string.
    Text(String),
    /// An array of values.
    List(Vec<ConfigValue>),
    /// A table of named values, in document order.
    Table(Vec<(String, ConfigValue)>),
    /// Any value of a type the engine has no use for.
    Other,
}

/// First binding of `key` in a table's entries.
pub open spec fn spec_lookup(entries: Seq<(String, ConfigValue)>, key: Seq<char>) -> Option<
    ConfigValue,
>
    decreases entries.len(),
{
    if entries.len() == 0 {
        None
    } else if entries[0].0@ == key {
        Some(entries[0].1)
    } else {
        spec_lookup(entries.skip(1), key)
    }
}

/// Value bound to `key`: `None` unless `c` is a table with such a binding.
pub open spec fn spec_get(c: ConfigValue, key: Seq<char>) -> Option<ConfigValue> {
    match c {
        ConfigValue::Table(entries) => spec_lookup(entries@, key),
        _ => None,
    }
}

impl ConfigValue {
    /// Look a key up in a table value.
    pub fn get<'a>(&'a self, key: &str) -> (r: Option<&'a ConfigValue>)
        ensures
            match r {
                Some(v) => spec_get(*self, key@) == Some(*v),
                None => spec_get(*self, key@) is None,
            },
    {
        match self {
            ConfigValue::Table(entries) => {
                let n = entries.len();
                let mut i: usize = 0;
                proof {
                    assert(entries@.skip(0) =~= entries@);
                }
                while i < n
                    invariant
                        i <= n,
                        n == entries@.len(),
                        spec_get(*self, key@) == spec_lookup(entries@, key@),
                        spec_lookup(entries@, key@) == spec_lookup(entries@.skip(i as int), key@),
                        forall|k: int| 0 <= k < i ==> entries@[k].0@ != key@,
                    decreases n - i,
                {
                    let ghost rest = entries@.skip(i as int);
                    proof {
                        assert(rest[0] == entries@[i as int]);
                        assert(rest.skip(1) =~= entries@.skip(i + 1));
                    }
                    if str_eq(entries[i].0.as_str(), key) {
                        proof {
                            assert(rest[0].0@ == key@);
                            assert(spec_lookup(rest, key@) == Some(rest[0].1));
                        }
                        return Some(&entries[i].1);
                    }
                    i = i + 1;
                }
                proof {
                    assert(entries@.skip(n as int) =~= Seq::<(String, ConfigValue)>::empty());
                }
                None
            },
            _ => None,
        }
    }
}

} // verus!
