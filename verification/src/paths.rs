//! Where one installation keeps its files.

use vstd::prelude::*;

verus! {

/// The files of one installation: its directory, the database in it, and
/// the fallback file of the master key.
#[derive(Debug)]
pub struct ConfigPaths {
    /// The directory that holds the other two.
    pub base_dir: String,
    /// The database file.
    pub db_path: String,
    /// The fallback key file.
    pub key_path: String,
}

impl ConfigPaths {
    /// A copy of these paths.
    pub fn duplicate(&self) -> (r: Self)
        ensures
            r == *self,
    {
        ConfigPaths {
            base_dir: self.base_dir.clone(),
            db_path: self.db_path.clone(),
            key_path: self.key_path.clone(),
        }
    }
}

} // verus!
