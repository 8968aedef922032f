//! Core object model for a git-style content-addressable object store:
//! object ids, object kinds, format validators for commits, tags and trees,
//! path-name safety rules, and the canonical loose-object serialization.

mod bytes;
mod text;

pub mod object;
pub mod path;
pub mod repo;
