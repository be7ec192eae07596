//! A version manager for the Sui tool binaries: it parses user-supplied
//! binary specifiers, selects an installation strategy, keeps a cached view
//! of the upstream release catalog, records every installed binary in a
//! JSON-backed store, and promotes installed binaries to the default
//! directory on the user's PATH.

pub mod commands;
pub mod download;
pub mod errors;
pub mod install;
pub mod paths;
pub mod json;
pub mod promote;
pub mod release;
pub mod show;
pub mod standalone;
pub mod switch;
pub mod strutil;
pub mod types;
pub mod update;
pub mod version;
