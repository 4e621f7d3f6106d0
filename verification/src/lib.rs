//! Version selection and installation planning for Node.js distributions.
//!
//! The library resolves a user-supplied selector (`"lts"`, `"latest"` or a
//! version suffix) against a catalog of known releases, names the archive
//! that holds the chosen release for a platform, and decides, step by step,
//! what an installer has to do next. Touching the network or the filesystem
//! is left to the caller: every function here maps plain values to plain
//! values.

pub mod catalog;
pub mod error;
pub mod install;
pub mod key;
pub mod probe;
pub mod release;
pub mod select;
pub mod text;
pub mod version;

pub use catalog::Catalog;
pub use error::{InstallError, ResolutionError};
pub use install::{
    artifact_address, artifact_basename, normalize_arch, normalize_os, InstallEvent, InstallPlan,
    InstallStep,
};
pub use key::{Rank, VersionKey};
pub use probe::{marked_name, probe};
pub use release::{Release, ReleaseView};
pub use select::{resolve, select, select_index};
pub use text::{chars_end_with, chars_of, ends_with, same_chars, same_text};
