//! Pronto, a zero-configuration build tool for C projects: the command-line
//! grammar, where a project keeps its build files, which sources a target
//! pulls in, how gcc is driven, and the small text formats it keeps on disk.

pub mod build_dir;
pub mod cli;
pub mod depfile;
pub mod helpers;
pub mod paths;
pub mod project;
pub mod text;
pub mod toolchain;
pub mod versionning;
