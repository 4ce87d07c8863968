//! The file-backed amplifier configuration repository.
use vstd::prelude::*;
use std::path::PathBuf;

verus! {

#[verifier::external_type_specification]
#[verifier::external_body]
pub struct ExPathBuf(PathBuf);

/// Stores one amplifier configuration snapshot as a JSON document at a path;
/// the application reads and writes the file.
pub struct JsonFileAmpConfigRepository {
    config_path: PathBuf,
}

impl JsonFileAmpConfigRepository {
    /// The path of the JSON document.
    pub closed spec fn path(&self) -> PathBuf {
        self.config_path
    }

    /// A repository at `config_path`; the path is not checked until used.
    pub fn new(config_path: PathBuf) -> (r: Self)
        ensures
            r.path() == config_path,
    {
        JsonFileAmpConfigRepository { config_path }
    }

    /// The path of the JSON document.
    pub fn config_path(&self) -> (r: &PathBuf)
        ensures
            *r == self.path(),
    {
        &self.config_path
    }
}

} // verus!
