//! The install-transaction engine of a package installer.
//!
//! The engine keeps a catalog of package directories and their
//! installations, takes each install through its stages, swaps install trees
//! in under a lock, and writes every step of that life to a journal. It
//! decides and records; reading files, running the build tool and talking
//! to the database are left to the caller, which does what the engine asks
//! for and reports what came of it.

pub mod text;
pub mod hexcode;
pub mod parse_error;
pub mod directory_hash;
pub mod file_hash;
pub mod version;
pub mod directory_version;
pub mod version_req;
pub mod directory;
pub mod events;
pub mod catalog;
pub mod package;
pub mod install;
pub mod pipeline;
pub mod migrations;
pub mod summary;
pub mod settings;
pub mod layout;
pub mod output;
pub mod cargo;
pub mod locks;
