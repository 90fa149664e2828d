//! The configuration store's file layout: where the document, its temporary
//! copy and backups of damaged documents live.
use vstd::prelude::*;

use crate::config::paths::{join_path, joined};
use crate::config::schema::ConfigDocument;
use crate::text::{decimal, push_decimal, push_str};

verus! {

/// Name of the configuration file inside the store's directory.
pub const CONFIG_FILE_NAME: &'static str = "config.toml";

/// A configuration store rooted at a directory.
#[derive(Debug, Clone, PartialEq, Eq)]
pub struct ConfigStore {
    root: String,
}

/// What loading gave: the document, and the backup a damaged file was moved
/// to, if any.
#[derive(Debug, PartialEq, Eq)]
pub struct LoadOutcome {
    pub document: ConfigDocument,
    pub recovered_from_backup: Option<String>,
}

impl ConfigStore {
    pub closed spec fn spec_root(&self) -> Seq<char> {
        self.root@
    }

    /// A store rooted at `root`.
    pub fn new(root: &str) -> (s: ConfigStore)
        ensures
            s.spec_root() == root@,
    {
        ConfigStore { root: root.to_owned() }
    }

    /// The store's directory.
    pub fn root(&self) -> (r: &str)
        ensures
            r@ == self.spec_root(),
    {
        self.root.as_str()
    }

    /// The configuration file's path.
    pub fn config_file(&self) -> (p: String)
        ensures
            p@ == joined(self.spec_root(), CONFIG_FILE_NAME@),
    {
        join_path(self.root.as_str(), CONFIG_FILE_NAME)
    }

    /// Where a save writes before renaming over the configuration file.
    pub fn temp_file(&self) -> (p: String)
        ensures
            p@ == joined(self.spec_root(), "config.toml.tmp"@),
    {
        join_path(self.root.as_str(), "config.toml.tmp")
    }

    /// Where a damaged configuration file is moved, stamped with the time in
    /// milliseconds.
    pub fn backup_path(&self, millis: u64) -> (p: String)
        ensures
            p@ == joined(self.spec_root(), "config.toml."@ + decimal(millis as nat) + ".bak"@),
    {
        let mut name = String::new();
        push_str(&mut name, "config.toml.");
        push_decimal(&mut name, millis);
        push_str(&mut name, ".bak");
        join_path(self.root.as_str(), name.as_str())
    }
}

} // verus!
