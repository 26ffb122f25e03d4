//! Resolving where the stash root directory lives.
//!
//! An override environment variable takes precedence; otherwise the stash
//! sits in a fixed subdirectory of the platform user-data directory. The
//! decision is made here from plain values; looking up the variable, the
//! platform directory and creating the directory happen outside the library.

use vstd::prelude::*;

use crate::errors::AppError;
use vstd::string::StringExecFns;

verus! {

/// What looking up the override environment variable yielded.
#[derive(Debug, PartialEq, Eq)]
pub enum EnvVarLookup {
    /// The variable is set to this value.
    Present(String),
    /// The variable is not set.
    Absent,
    /// The variable is set, but its value is not valid Unicode.
    NotUnicode,
}

/// Where the stash root shall live.
#[derive(Debug, PartialEq, Eq)]
pub enum StashRoot {
    /// The path the override environment variable holds, taken as is.
    FromEnvVar(String),
    /// The fixed stash subdirectory under this platform user-data directory.
    UnderDataDir(String),
}

/// The fixed name of the stash subdirectory under the user-data directory.
pub fn stash_dir_name() -> (name: &'static str)
    ensures
        name@ == "tash"@,
{
    "tash"
}

/// Decides where the stash root lives: the override variable's value when it
/// is set, the platform user-data directory otherwise. Fails when the
/// variable holds a non-Unicode value, or when it is unset and no platform
/// directory is known.
pub fn resolve_stash_root(env: EnvVarLookup, platform_data_dir: Option<String>) -> (r: Result<
    StashRoot,
    AppError,
>)
    ensures
        env matches EnvVarLookup::Present(p) ==> (r matches Ok(root) && root matches
            StashRoot::FromEnvVar(q) && q@ == p@),
        env matches EnvVarLookup::NotUnicode ==> r matches Err(e) && e matches
            AppError::DataDirEnvVarInvalid(m) && m@ == "value is not valid unicode"@,
        env matches EnvVarLookup::Absent ==> (match platform_data_dir {
            Some(d) => r matches Ok(root) && root matches StashRoot::UnderDataDir(q) && q@ == d@,
            None => r == Err::<StashRoot, AppError>(AppError::GetDataDir),
        }),
{
    match env {
        EnvVarLookup::Present(p) => Ok(StashRoot::FromEnvVar(p)),
        EnvVarLookup::NotUnicode => Err(
            AppError::DataDirEnvVarInvalid(String::from_str("value is not valid unicode")),
        ),
        EnvVarLookup::Absent => match platform_data_dir {
            Some(d) => Ok(StashRoot::UnderDataDir(d)),
            None => Err(AppError::GetDataDir),
        },
    }
}

} // verus!
