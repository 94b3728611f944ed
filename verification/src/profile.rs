//! Toolchain profiles.
//!
//! A profile names a compiler, a language-standard flag, and ordered flag
//! lists for compiling and linking.  A configuration block overrides the
//! scalar fields and appends to the list fields; a field of the wrong shape
//! is a [`ProfileError::WrongType`], and filling stops at the first such
//! field, keeping what was already applied.

use vstd::prelude::*;

verus! {

use crate::config::ConfigValue;
use crate::config::spec_get;
use vstd::string::StringExecFns;

/// Failure to read a profile block.
#[derive(Debug)]
pub enum ProfileError {
    WrongType(String),
}

/// A named toolchain configuration; immutable once constructed.
#[derive(Debug, Clone)]
pub struct Profile {
    pub name: String,
    pub compiler: String,
    pub standard: String,
    pub defines: Vec<String>,
    pub options: Vec<String>,
    pub linking_options: Vec<String>,
    pub linking_directories: Vec<String>,
    pub include_directories: Vec<String>,
}

/// Mathematical image of a profile: every field as a sequence.
#[verifier::ext_equal]
pub ghost struct ProfileView {
    pub name: Seq<char>,
    pub compiler: Seq<char>,
    pub standard: Seq<char>,
    pub defines: Seq<Seq<char>>,
    pub options: Seq<Seq<char>>,
    pub linking_options: Seq<Seq<char>>,
    pub linking_directories: Seq<Seq<char>>,
    pub include_directories: Seq<Seq<char>>,
}

impl View for Profile {
    type V = ProfileView;

    open spec fn view(&self) -> ProfileView {
        ProfileView {
            name: self.name@,
            compiler: self.compiler@,
            standard: self.standard@,
            defines: self.defines.deep_view(),
            options: self.options.deep_view(),
            linking_options: self.linking_options.deep_view(),
            linking_directories: self.linking_directories.deep_view(),
            include_directories: self.include_directories.deep_view(),
        }
    }
}

/// The profile every construction starts from.
pub open spec fn empty_view(name: Seq<char>) -> ProfileView {
    ProfileView {
        name,
        compiler: "gcc"@,
        standard: "-std=c++17"@,
        defines: Seq::empty(),
        options: Seq::empty(),
        linking_options: Seq::empty(),
        linking_directories: Seq::empty(),
        include_directories: Seq::empty(),
    }
}

/// A scalar field is acceptable when absent or a string.
pub open spec fn text_field_ok(c: ConfigValue, key: Seq<char>) -> bool {
    match spec_get(c, key) {
        None => true,
        Some(v) => v is Text,
    }
}

/// New value of a scalar field: replaced by a bound string, else kept.
pub open spec fn text_field(old: Seq<char>, c: ConfigValue, key: Seq<char>) -> Seq<char> {
    match spec_get(c, key) {
        Some(ConfigValue::Text(s)) => s@,
        _ => old,
    }
}

/// Every element of an array is a string.
pub open spec fn all_texts(items: Seq<ConfigValue>) -> bool {
    forall|i: int| 0 <= i < items.len() ==> items[i] is Text
}

/// The strings of an all-string array.
pub open spec fn texts_of(items: Seq<ConfigValue>) -> Seq<Seq<char>> {
    items.map_values(
        |v: ConfigValue|
            match v {
                ConfigValue::Text(s) => s@,
                _ => Seq::<char>::empty(),
            },
    )
}

/// A list field is acceptable when absent, one string, or an array of
/// strings.
pub open spec fn list_field_ok(c: ConfigValue, key: Seq<char>) -> bool {
    match spec_get(c, key) {
        None => true,
        Some(v) => match v {
            ConfigValue::Text(_) => true,
            ConfigValue::List(items) => all_texts(items@),
            _ => false,
        },
    }
}

/// New value of a list field: a bound string or all-string array is
/// appended; anything else keeps the list.
pub open spec fn list_field(old: Seq<Seq<char>>, c: ConfigValue, key: Seq<char>) -> Seq<Seq<char>> {
    match spec_get(c, key) {
        Some(ConfigValue::Text(s)) => old.push(s@),
        Some(ConfigValue::List(items)) => if all_texts(items@) {
            old + texts_of(items@)
        } else {
            old
        },
        _ => old,
    }
}

/// Every field of the block has an acceptable shape.
pub open spec fn profile_config_ok(c: ConfigValue) -> bool {
    &&& text_field_ok(c, "compiler"@)
    &&& text_field_ok(c, "standard"@)
    &&& list_field_ok(c, "defines"@)
    &&& list_field_ok(c, "options"@)
    &&& list_field_ok(c, "linking_options"@)
    &&& list_field_ok(c, "linking_directories"@)
    &&& list_field_ok(c, "include_directories"@)
}

/// The profile after a fill attempt: fields are visited in a fixed order
/// and the first ill-shaped field stops the walk, so every field before it
/// is applied and every field from it on is kept.
pub open spec fn filled_view(p: ProfileView, c: ConfigValue) -> ProfileView {
    let ok1 = text_field_ok(c, "compiler"@);
    let ok2 = text_field_ok(c, "standard"@);
    let ok3 = list_field_ok(c, "defines"@);
    let ok4 = list_field_ok(c, "options"@);
    let ok5 = list_field_ok(c, "linking_options"@);
    let ok6 = list_field_ok(c, "linking_directories"@);
    ProfileView {
        name: p.name,
        compiler: text_field(p.compiler, c, "compiler"@),
        standard: if ok1 {
            text_field(p.standard, c, "standard"@)
        } else {
            p.standard
        },
        defines: if ok1 && ok2 {
            list_field(p.defines, c, "defines"@)
        } else {
            p.defines
        },
        options: if ok1 && ok2 && ok3 {
            list_field(p.options, c, "options"@)
        } else {
            p.options
        },
        linking_options: if ok1 && ok2 && ok3 && ok4 {
            list_field(p.linking_options, c, "linking_options"@)
        } else {
            p.linking_options
        },
        linking_directories: if ok1 && ok2 && ok3 && ok4 && ok5 {
            list_field(p.linking_directories, c, "linking_directories"@)
        } else {
            p.linking_directories
        },
        include_directories: if ok1 && ok2 && ok3 && ok4 && ok5 && ok6 {
            list_field(p.include_directories, c, "include_directories"@)
        } else {
            p.include_directories
        },
    }
}

/// Replace a scalar field from the block, or reject its shape.
fn apply_text_field(dst: &mut String, c: &ConfigValue, key: &str, msg: &str) -> (r: Result<
    (),
    ProfileError,
>)
    ensures
        final(dst)@ == text_field(old(dst)@, *c, key@),
        r is Ok <==> text_field_ok(*c, key@),
        r matches Err(e) ==> e is WrongType,
{
    match c.get(key) {
        None => Ok(()),
        Some(v) => match v {
            ConfigValue::Text(s) => {
                *dst = s.clone();
                Ok(())
            },
            _ => Err(ProfileError::WrongType(String::from_str(msg))),
        },
    }
}

/// Append one string to a list, tracking the list's deep view.
pub(crate) fn push_string(dst: &mut Vec<String>, s: &str)
    ensures
        final(dst).deep_view() == old(dst).deep_view().push(s@),
{
    dst.push(String::from_str(s));
    proof {
        assert(dst.deep_view() =~= old(dst).deep_view().push(s@));
    }
}

/// Append a cloned string to a list, tracking the list's deep view.
pub(crate) fn push_string_clone(dst: &mut Vec<String>, s: &String)
    ensures
        final(dst).deep_view() == old(dst).deep_view().push(s@),
{
    dst.push(s.clone());
    proof {
        assert(dst.deep_view() =~= old(dst).deep_view().push(s@));
    }
}

/// Append every string of `src` to `dst`.
pub fn extend_strings(dst: &mut Vec<String>, src: &Vec<String>)
    ensures
        final(dst).deep_view() == old(dst).deep_view() + src.deep_view(),
{
    let n = src.len();
    let mut i: usize = 0;
    proof {
        assert(dst.deep_view() =~= old(dst).deep_view() + src.deep_view().take(0));
    }
    while i < n
        invariant
            i <= n,
            n == src@.len(),
            dst.deep_view() == old(dst).deep_view() + src.deep_view().take(i as int),
        decreases n - i,
    {
        push_string_clone(dst, &src[i]);
        proof {
            assert(dst.deep_view() =~= old(dst).deep_view() + src.deep_view().take(i + 1));
        }
        i = i + 1;
    }
    proof {
        assert(src.deep_view().take(n as int) =~= src.deep_view());
    }
}

/// Append a list field's contribution from the block, or reject its shape.
fn apply_list_field(dst: &mut Vec<String>, c: &ConfigValue, key: &str, msg_elem: &str, msg_kind: &str) -> (r:
    Result<(), ProfileError>)
    ensures
        final(dst).deep_view() == list_field(old(dst).deep_view(), *c, key@),
        r is Ok <==> list_field_ok(*c, key@),
        r matches Err(e) ==> e is WrongType,
{
    match c.get(key) {
        None => Ok(()),
        Some(v) => match v {
            ConfigValue::Text(s) => {
                push_string_clone(dst, s);
                Ok(())
            },
            ConfigValue::List(items) => {
                let n = items.len();
                let mut i: usize = 0;
                while i < n
                    invariant
                        i <= n,
                        n == items@.len(),
                        spec_get(*c, key@) == Some(ConfigValue::List(*items)),
                        dst.deep_view() == old(dst).deep_view(),
                        forall|k: int| 0 <= k < i ==> items@[k] is Text,
                    decreases n - i,
                {
                    match &items[i] {
                        ConfigValue::Text(_) => {},
                        _ => {
                            proof {
                                assert(!(items@[i as int] is Text));
                                assert(!all_texts(items@));
                            }
                            return Err(ProfileError::WrongType(String::from_str(msg_elem)));
                        },
                    }
                    i = i + 1;
                }
                assert(all_texts(items@));
                let mut j: usize = 0;
                proof {
                    assert(texts_of(items@.take(0)) =~= Seq::<Seq<char>>::empty());
                    assert(dst.deep_view() =~= old(dst).deep_view() + texts_of(items@.take(0)));
                }
                while j < n
                    invariant
                        j <= n,
                        n == items@.len(),
                        all_texts(items@),
                        dst.deep_view() == old(dst).deep_view() + texts_of(items@.take(j as int)),
                    decreases n - j,
                {
                    match &items[j] {
                        ConfigValue::Text(s) => {
                            push_string_clone(dst, s);
                        },
                        _ => {
                            proof {
                                assert(items@[j as int] is Text);
                                assert(false);
                            }
                        },
                    }
                    proof {
                        assert(texts_of(items@.take(j + 1)) =~= texts_of(
                            items@.take(j as int),
                        ).push(texts_of(items@)[j as int]));
                        assert(dst.deep_view() =~= old(dst).deep_view() + texts_of(
                            items@.take(j + 1),
                        ));
                    }
                    j = j + 1;
                }
                proof {
                    assert(items@.take(n as int) =~= items@);
                }
                Ok(())
            },
            _ => Err(ProfileError::WrongType(String::from_str(msg_kind))),
        },
    }
}

impl Profile {
    /// The starting profile under a given name.
    pub fn empty(name: &str) -> (r: Profile)
        ensures
            r@ == empty_view(name@),
    {
        let r = Profile {
            name: String::from_str(name),
            compiler: String::from_str("gcc"),
            standard: String::from_str("-std=c++17"),
            defines: Vec::new(),
            options: Vec::new(),
            linking_options: Vec::new(),
            linking_directories: Vec::new(),
            include_directories: Vec::new(),
        };
        proof {
            assert(r.defines.deep_view() =~= Seq::<Seq<char>>::empty());
            assert(r.options.deep_view() =~= Seq::<Seq<char>>::empty());
            assert(r.linking_options.deep_view() =~= Seq::<Seq<char>>::empty());
            assert(r.linking_directories.deep_view() =~= Seq::<Seq<char>>::empty());
            assert(r.include_directories.deep_view() =~= Seq::<Seq<char>>::empty());
            assert(r@ =~= empty_view(name@));
        }
        r
    }

    /// An owned copy with the same view.
    pub fn duplicate(&self) -> (r: Profile)
        ensures
            r@ == self@,
    {
        let mut defines: Vec<String> = Vec::new();
        let mut options: Vec<String> = Vec::new();
        let mut linking_options: Vec<String> = Vec::new();
        let mut linking_directories: Vec<String> = Vec::new();
        let mut include_directories: Vec<String> = Vec::new();
        extend_strings(&mut defines, &self.defines);
        extend_strings(&mut options, &self.options);
        extend_strings(&mut linking_options, &self.linking_options);
        extend_strings(&mut linking_directories, &self.linking_directories);
        extend_strings(&mut include_directories, &self.include_directories);
        let r = Profile {
            name: self.name.clone(),
            compiler: self.compiler.clone(),
            standard: self.standard.clone(),
            defines,
            options,
            linking_options,
            linking_directories,
            include_directories,
        };
        proof {
            assert(r@ =~= self@);
        }
        r
    }

    /// Fill the fields of this profile from a configuration block.
    /// Scalars are replaced, lists extended; the walk stops at the first
    /// ill-shaped field and reports it, keeping what was already applied.
    pub fn fill_from_config(&mut self, config: &ConfigValue) -> (r: Result<(), ProfileError>)
        ensures
            final(self)@ == filled_view(old(self)@, *config),
            r is Ok <==> profile_config_ok(*config),
            r matches Err(e) ==> e is WrongType,
    {
        apply_text_field(&mut self.compiler, config, "compiler", "compiler is string")?;
        apply_text_field(&mut self.standard, config, "standard", "standard is string")?;
        apply_list_field(
            &mut self.defines,
            config,
            "defines",
            "defines array can contain only string type",
            "defines can be only an array or a string",
        )?;
        apply_list_field(
            &mut self.options,
            config,
            "options",
            "options array can contain only string type",
            "options can be only an array or a string",
        )?;
        apply_list_field(
            &mut self.linking_options,
            config,
            "linking_options",
            "linking options array can contain only string type",
            "linking options can be only an array or a string",
        )?;
        apply_list_field(
            &mut self.linking_directories,
            config,
            "linking_directories",
            "linking directories array can contain only string type",
            "linking directories can be only an array or a string",
        )?;
        apply_list_field(
            &mut self.include_directories,
            config,
            "include_directories",
            "include directories array can contain only string type",
            "include directories can be only an array or a string",
        )?;
        Ok(())
    }

    /// A fresh profile built from the starting profile and a block; an
    /// ill-shaped block yields the error and no profile.
    pub fn from_config(name: &str, config: &ConfigValue) -> (r: Result<Profile, ProfileError>)
        ensures
            r matches Ok(p) ==> p@ == filled_view(empty_view(name@), *config),
            r is Ok <==> profile_config_ok(*config),
            r matches Err(e) ==> e is WrongType,
    {
        let mut profile = Profile::empty(name);
        profile.fill_from_config(config)?;
        Ok(profile)
    }
}

} // verus!
