//! A declarative command-line argument parsing and dispatch engine.
//!
//! An application is described once as a tree of command descriptors, each
//! carrying its own typed flag descriptors and an optional action.  At run
//! time the engine walks a raw argument vector, descends into the matching
//! subcommands, builds a [`Context`] of the remaining tokens, and invokes the
//! resolved action.  Flag values are not parsed eagerly: an action queries
//! the flags it cares about through the [`Context`] accessors, and each query
//! resolves and coerces the value on demand, reporting a typed error when the
//! query cannot be answered.

pub mod error;
pub mod flag;
pub mod numeric;
pub mod strutil;
pub mod resolver;
pub mod command;
pub mod context;
pub mod app;
pub mod laws;

pub use crate::app::App;
pub use crate::command::Action;
pub use crate::command::Command;
pub use crate::command::match_command;
pub use crate::context::Context;
pub use crate::error::ActionError;
pub use crate::error::ActionErrorKind;
pub use crate::error::FlagError;
pub use crate::error::FlagErrorKind;
pub use crate::error::RunError;
pub use crate::flag::Flag;
pub use crate::flag::FlagType;
pub use crate::laws::lemma_dispatch_deterministic;
pub use crate::laws::lemma_empty_tokens_reach_root;
pub use crate::laws::lemma_match_command_alias_order;
pub use crate::laws::lemma_matches_alias_order;
pub use crate::laws::lemma_resolve_idempotent;
pub use crate::resolver::FlagValue;
pub use crate::resolver::resolve;
