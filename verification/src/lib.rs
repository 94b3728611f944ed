//! A declarative, profile-aware build driver for C and C++ projects.
//!
//! A project ("tank") is described by one configuration document that lists
//! named build targets ("sections").  The library holds the incremental-build
//! engine: the dependency graph between sources and headers, the
//! freshness/freeze protocol that decides what must be recompiled, the
//! compile-plan and link decisions, and the on-disk artifact layout.  All
//! decisions are pure functions over plain data; reading the filesystem and
//! spawning compiler processes is left to the binary built around the library.

pub mod clock;
pub mod codec;
pub mod config;
pub mod dependency;
pub mod engine;
pub mod file;
pub mod profile;
pub mod profiles_manager;
pub mod scan;
pub mod section;
pub mod strutil;
pub mod tank;

use vstd::prelude::*;

verus! {

/// Upper bound (exclusive) on the wall-clock seconds the engine works with;
/// timestamps at or past the year 10000 are rejected at construction.
pub const MAX_TIME_SECONDS: i64 = 253402300800;

} // verus!
