//! Verified core of the Nix bindings: the decisions that sit between the
//! Nix C API and its Rust users (callback decoding, builder state, lock
//! planning, status handling), stated as contracts and proved by Verus.

pub mod text;
pub mod logger;
pub mod flake;
pub mod search;
pub mod cursor;
pub mod json;
pub mod repl;
pub mod status;
