//! A self-updating installer, verified at its core: it resolves the newest
//! published release out of a catalog page, compares it against the locally
//! recorded installed version, and plans the staged, atomically promoted
//! installation of the downloaded archive.
//!
//! The surrounding process does the fetching, reading and writing; every
//! decision — which release to take, what the installed version is, which
//! archive entries are safe to extract and where, and in what order the
//! staging directory is populated, stamped and swapped in — is made here,
//! under contract.

pub mod archive;
pub mod errors;
pub mod paths;
pub mod plan;
pub mod release;
pub mod text;
pub mod version;
