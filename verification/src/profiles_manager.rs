//! The registry of toolchain profiles.
//!
//! Six presets ship with the tool; a `profiles` table in the configuration
//! may override or extend each preset field by field.  A block under any
//! other name is ignored.  A fill that stops at an ill-shaped field keeps
//! what was applied up to it, as [`crate::profile::filled_view`] records.

use vstd::prelude::*;

verus! {

use crate::config::ConfigValue;
use crate::config::spec_get;
use crate::profile::Profile;
use crate::profile::ProfileView;
use crate::profile::empty_view;
use crate::profile::extend_strings;
use crate::profile::filled_view;
use vstd::string::StringExecFns;

/// The warning set shared by every preset.
pub open spec fn default_warning_flags() -> Seq<Seq<char>> {
    seq![
        "-pedantic"@,
        "-Wall"@,
        "-Wextra"@,
        "-Wcast-align"@,
        "-Wcast-qual"@,
        "-Wconversion"@,
        "-Wdisabled-optimization"@,
        "-Wmissing-include-dirs"@,
        "-Wmissing-noreturn"@,
        "-Wshadow"@,
        "-Wstack-protector"@,
        "-Wunreachable-code"@,
        "-Wfloat-equal"@,
        "-Wunused"@,
        "-Wswitch"@,
        "-Wswitch-enum"@,
        "-Winit-self"@,
        "-Wuninitialized"@,
        "-Wformat=2"@,
        "-Wformat-nonliteral"@,
        "-Wformat-security"@,
        "-Wformat-y2k"@,
        "-Winline"@,
        "-Wredundant-decls"@,
    ]
}

/// A preset: `g++`, C++17, the given leading options followed by the
/// warning set, and the given linking options.
pub open spec fn preset_view(name: Seq<char>, lead: Seq<Seq<char>>, link: Seq<Seq<char>>) -> ProfileView {
    ProfileView {
        compiler: "g++"@,
        options: lead + default_warning_flags(),
        linking_options: link,
        ..empty_view(name)
    }
}

/// The preset a configuration block lands on, after the block (if any) is
/// applied.
pub open spec fn applied(p: ProfileView, cfg: Option<ConfigValue>, key: Seq<char>) -> ProfileView {
    match cfg {
        None => p,
        Some(c) => match spec_get(c, key) {
            Some(block) => filled_view(p, block),
            None => p,
        },
    }
}

/// The six registry entries, in declaration order.
pub open spec fn expected_manager(cfg: Option<ConfigValue>) -> Seq<(Seq<char>, ProfileView)> {
    seq![
        (
            "release"@,
            applied(preset_view("release"@, seq!["-O2"@, "-g0"@, "-Werror"@], Seq::empty()), cfg, "release"@),
        ),
        (
            "debug"@,
            applied(preset_view("debug"@, seq!["-O0"@, "-g3"@, "-Werror"@], Seq::empty()), cfg, "debug"@),
        ),
        (
            "release-unsafe"@,
            applied(preset_view("release-unsafe"@, seq!["-O3"@, "-g0"@], Seq::empty()), cfg, "release-unsafe"@),
        ),
        (
            "debug-unsafe"@,
            applied(preset_view("debug-unsafe"@, seq!["-O0"@, "-g3"@], Seq::empty()), cfg, "debug-unsafe"@),
        ),
        (
            "debug-asan"@,
            applied(
                preset_view(
                    "debug-asan"@,
                    seq![
                        "-O0"@,
                        "-g3"@,
                        "-Werror"@,
                        "-fsanitize=address"@,
                        "-fsanitize=undefined"@,
                        "-fsanitize=leak"@,
                    ],
                    seq!["-fsanitize=address"@, "-fsanitize=undefined"@, "-fsanitize=leak"@],
                ),
                cfg,
                "debug-asan"@,
            ),
        ),
        (
            "debug-tsan"@,
            applied(
                preset_view(
                    "debug-tsan"@,
                    seq!["-O0"@, "-g3"@, "-Werror"@, "-fsanitize=thread"@],
                    seq!["-fsanitize=thread"@],
                ),
                cfg,
                "debug-tsan"@,
            ),
        ),
    ]
}

/// First profile registered under `name`.
pub open spec fn mgr_lookup(entries: Seq<(Seq<char>, ProfileView)>, name: Seq<char>) -> Option<
    ProfileView,
>
    decreases entries.len(),
{
    if entries.len() == 0 {
        None
    } else if entries[0].0 == name {
        Some(entries[0].1)
    } else {
        mgr_lookup(entries.skip(1), name)
    }
}

/// The named profiles the tool can build with.
#[derive(Debug)]
pub struct ProfilesManager {
    profiles: Vec<(String, Profile)>,
}

impl View for ProfilesManager {
    type V = Seq<(Seq<char>, ProfileView)>;

    closed spec fn view(&self) -> Seq<(Seq<char>, ProfileView)> {
        Seq::new(self.profiles@.len(), |i: int| (self.profiles@[i].0@, self.profiles@[i].1@))
    }
}

/// Build one preset profile.
fn make_preset(name: &str, lead: &Vec<String>, link: Vec<String>, flags: &Vec<String>) -> (r:
    Profile)
    ensures
        r@ == (ProfileView {
            compiler: "g++"@,
            options: lead.deep_view() + flags.deep_view(),
            linking_options: link.deep_view(),
            ..empty_view(name@)
        }),
{
    let mut profile = Profile::empty(name);
    profile.compiler = String::from_str("g++");
    let mut options: Vec<String> = Vec::new();
    extend_strings(&mut options, lead);
    extend_strings(&mut options, flags);
    profile.options = options;
    profile.linking_options = link;
    proof {
        assert(profile@ =~= (ProfileView {
            compiler: "g++"@,
            options: lead.deep_view() + flags.deep_view(),
            linking_options: link.deep_view(),
            ..empty_view(name@)
        }));
    }
    profile
}

/// Apply the block registered under `name`, if the configuration has one.
fn apply_block(profile: &mut Profile, cfg: Option<&ConfigValue>, name: &str)
    ensures
        final(profile)@ == applied(
            old(profile)@,
            match cfg {
                Some(c) => Some(*c),
                None => None,
            },
            name@,
        ),
{
    match cfg {
        None => {},
        Some(c) => {
            match c.get(name) {
                Some(block) => {
                    let _ = profile.fill_from_config(block);
                },
                None => {},
            }
        },
    }
}

impl ProfilesManager {
    /// Build the registry: the six presets, each overridden by its
    /// configuration block where one exists.
    pub fn new(config: Option<&ConfigValue>) -> (r: ProfilesManager)
        ensures
            r@ == expected_manager(
                match config {
                    Some(c) => Some(*c),
                    None => None,
                },
            ),
    {
        let ghost cfg: Option<ConfigValue> = match config {
            Some(c) => Some(*c),
            None => None,
        };
        let mut flags: Vec<String> = Vec::new();
        push_flag(&mut flags, "-pedantic");
        push_flag(&mut flags, "-Wall");
        push_flag(&mut flags, "-Wextra");
        push_flag(&mut flags, "-Wcast-align");
        push_flag(&mut flags, "-Wcast-qual");
        push_flag(&mut flags, "-Wconversion");
        push_flag(&mut flags, "-Wdisabled-optimization");
        push_flag(&mut flags, "-Wmissing-include-dirs");
        push_flag(&mut flags, "-Wmissing-noreturn");
        push_flag(&mut flags, "-Wshadow");
        push_flag(&mut flags, "-Wstack-protector");
        push_flag(&mut flags, "-Wunreachable-code");
        push_flag(&mut flags, "-Wfloat-equal");
        push_flag(&mut flags, "-Wunused");
        push_flag(&mut flags, "-Wswitch");
        push_flag(&mut flags, "-Wswitch-enum");
        push_flag(&mut flags, "-Winit-self");
        push_flag(&mut flags, "-Wuninitialized");
        push_flag(&mut flags, "-Wformat=2");
        push_flag(&mut flags, "-Wformat-nonliteral");
        push_flag(&mut flags, "-Wformat-security");
        push_flag(&mut flags, "-Wformat-y2k");
        push_flag(&mut flags, "-Winline");
        push_flag(&mut flags, "-Wredundant-decls");
        proof {
            assert(flags.deep_view() =~= default_warning_flags());
        }

        let mut lead: Vec<String> = Vec::new();
        push_flag(&mut lead, "-O2");
        push_flag(&mut lead, "-g0");
        push_flag(&mut lead, "-Werror");
        let mut release = make_preset("release", &lead, Vec::new(), &flags);
        apply_block(&mut release, config, "release");
        proof {
            assert(lead.deep_view() =~= seq!["-O2"@, "-g0"@, "-Werror"@]);
            assert(release@ == expected_manager(cfg)[0].1);
        }

        let mut lead: Vec<String> = Vec::new();
        push_flag(&mut lead, "-O0");
        push_flag(&mut lead, "-g3");
        push_flag(&mut lead, "-Werror");
        let mut debug = make_preset("debug", &lead, Vec::new(), &flags);
        apply_block(&mut debug, config, "debug");
        proof {
            assert(lead.deep_view() =~= seq!["-O0"@, "-g3"@, "-Werror"@]);
            assert(debug@ == expected_manager(cfg)[1].1);
        }

        let mut lead: Vec<String> = Vec::new();
        push_flag(&mut lead, "-O3");
        push_flag(&mut lead, "-g0");
        let mut release_unsafe = make_preset("release-unsafe", &lead, Vec::new(), &flags);
        apply_block(&mut release_unsafe, config, "release-unsafe");
        proof {
            assert(lead.deep_view() =~= seq!["-O3"@, "-g0"@]);
            assert(release_unsafe@ == expected_manager(cfg)[2].1);
        }

        let mut lead: Vec<String> = Vec::new();
        push_flag(&mut lead, "-O0");
        push_flag(&mut lead, "-g3");
        let mut debug_unsafe = make_preset("debug-unsafe", &lead, Vec::new(), &flags);
        apply_block(&mut debug_unsafe, config, "debug-unsafe");
        proof {
            assert(lead.deep_view() =~= seq!["-O0"@, "-g3"@]);
            assert(debug_unsafe@ == expected_manager(cfg)[3].1);
        }

        let mut lead: Vec<String> = Vec::new();
        push_flag(&mut lead, "-O0");
        push_flag(&mut lead, "-g3");
        push_flag(&mut lead, "-Werror");
        push_flag(&mut lead, "-fsanitize=address");
        push_flag(&mut lead, "-fsanitize=undefined");
        push_flag(&mut lead, "-fsanitize=leak");
        let mut link: Vec<String> = Vec::new();
        push_flag(&mut link, "-fsanitize=address");
        push_flag(&mut link, "-fsanitize=undefined");
        push_flag(&mut link, "-fsanitize=leak");
        proof {
            assert(lead.deep_view() =~= seq![
                "-O0"@,
                "-g3"@,
                "-Werror"@,
                "-fsanitize=address"@,
                "-fsanitize=undefined"@,
                "-fsanitize=leak"@,
            ]);
            assert(link.deep_view() =~= seq![
                "-fsanitize=address"@,
                "-fsanitize=undefined"@,
                "-fsanitize=leak"@,
            ]);
        }
        let mut debug_asan = make_preset("debug-asan", &lead, link, &flags);
        apply_block(&mut debug_asan, config, "debug-asan");
        proof {
            assert(debug_asan@ == expected_manager(cfg)[4].1);
        }

        let mut lead: Vec<String> = Vec::new();
        push_flag(&mut lead, "-O0");
        push_flag(&mut lead, "-g3");
        push_flag(&mut lead, "-Werror");
        push_flag(&mut lead, "-fsanitize=thread");
        let mut link: Vec<String> = Vec::new();
        push_flag(&mut link, "-fsanitize=thread");
        proof {
            assert(lead.deep_view() =~= seq!["-O0"@, "-g3"@, "-Werror"@, "-fsanitize=thread"@]);
            assert(link.deep_view() =~= seq!["-fsanitize=thread"@]);
        }
        let mut debug_tsan = make_preset("debug-tsan", &lead, link, &flags);
        apply_block(&mut debug_tsan, config, "debug-tsan");
        proof {
            assert(debug_tsan@ == expected_manager(cfg)[5].1);
        }

        let mut profiles: Vec<(String, Profile)> = Vec::new();
        profiles.push((String::from_str("release"), release));
        profiles.push((String::from_str("debug"), debug));
        profiles.push((String::from_str("release-unsafe"), release_unsafe));
        profiles.push((String::from_str("debug-unsafe"), debug_unsafe));
        profiles.push((String::from_str("debug-asan"), debug_asan));
        profiles.push((String::from_str("debug-tsan"), debug_tsan));
        let r = ProfilesManager { profiles };
        proof {
            assert(r@ =~= expected_manager(cfg));
        }
        r
    }

    /// Look a profile up by name.
    pub fn get(&self, profile_name: &str) -> (r: Option<&Profile>)
        ensures
            match r {
                Some(p) => mgr_lookup(self@, profile_name@) == Some(p@),
                None => mgr_lookup(self@, profile_name@) is None,
            },
    {
        let n = self.profiles.len();
        let mut i: usize = 0;
        proof {
            assert(self@.skip(0) =~= self@);
        }
        while i < n
            invariant
                i <= n,
                n == self.profiles@.len(),
                n == self@.len(),
                mgr_lookup(self@, profile_name@) == mgr_lookup(self@.skip(i as int), profile_name@),
                forall|k: int| 0 <= k < i ==> self@[k].0 != profile_name@,
            decreases n - i,
        {
            let ghost rest = self@.skip(i as int);
            proof {
                assert(rest[0] == self@[i as int]);
                assert(rest.skip(1) =~= self@.skip(i + 1));
            }
            if crate::strutil::str_eq(self.profiles[i].0.as_str(), profile_name) {
                proof {
                    assert(mgr_lookup(rest, profile_name@) == Some(rest[0].1));
                }
                return Some(&self.profiles[i].1);
            }
            i = i + 1;
        }
        proof {
            assert(self@.skip(n as int) =~= Seq::<(Seq<char>, ProfileView)>::empty());
        }
        None
    }
}

/// Append one literal flag.
fn push_flag(dst: &mut Vec<String>, s: &str)
    ensures
        final(dst).deep_view() == old(dst).deep_view().push(s@),
{
    dst.push(String::from_str(s));
    proof {
        assert(dst.deep_view() =~= old(dst).deep_view().push(s@));
    }
}

} // verus!
