//! A watch-match-move engine: the verified core of a background agent that
//! watches a directory, matches arriving files against an ordered,
//! hot-reloadable set of glob-to-destination rules, and relocates each
//! match with a two-tier fallback (atomic rename, else copy then delete)
//! and idempotent retry semantics.
//!
//! The crate holds the engine's data model, decisions and proofs:
//! - [`rules`]: the rule set that is swapped wholesale on reload;
//! - [`pattern`]: glob compilation and first-match-wins routing;
//! - [`store`]: the authoritative rule set, its snapshot/replace
//!   discipline, and the self-healing configuration load;
//! - [`mover`]: the per-file relocation machine and its guarantees —
//!   no data loss on partial failure, skip when the source is gone;
//! - [`orchestrator`]: per-batch classification, move planning and the
//!   full rescan;
//! - [`paths`] and [`text`]: the path and message formatting the above
//!   rely on.
//!
//! Filesystem operations, notifications and the watch loop itself stay
//! outside: the engine decides, the surrounding process performs.

pub mod mover;
pub mod orchestrator;
pub mod paths;
pub mod pattern;
pub mod rules;
pub mod store;
pub mod text;
