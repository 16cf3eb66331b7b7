//! Settings, and what can go wrong in finding them.
use vstd::prelude::*;

verus! {

/// What went wrong in loading or resolving settings.
#[derive(Debug)]
pub enum Error {
    /// A settings file could not be read or does not hold settings.
    Invalid(String),
    /// The named XDG base directory could not be determined.
    XDGDirNotFound(&'static str),
}

/// Where the database is.
#[derive(Debug)]
pub struct DatabaseSettings {
    /// The URL of a remote database.
    pub url: Option<String>,
    /// What a remote database is opened with.
    pub auth_token: Option<String>,
}

/// Where files are kept. A directory is whatever stands for one.
#[derive(Debug)]
pub struct StorageSettings<D> {
    /// The data directory that was set explicitly.
    pub data_dir_override: Option<D>,
}

/// The settings that the store is opened with.
#[derive(Debug)]
pub struct Settings<D> {
    pub database: DatabaseSettings,
    pub storage: StorageSettings<D>,
}

} // verus!
