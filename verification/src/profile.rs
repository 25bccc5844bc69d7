//! Where an agent profile keeps its memory records.

use vstd::prelude::*;

use crate::paths::{appends, joined, resolve_under};

verus! {

/// The profile directory of an agent and its configured memory root.
#[derive(Debug)]
pub struct ProfileScaffold<'a> {
    pub profile_dir: &'a str,
    /// Memory records directory, relative to the profile or absolute.
    pub memory_root: &'a str,
}

/// `rel` when it is absolute, else `rel` under `profile_dir`.
pub fn resolve_relative(profile_dir: &str, rel: &str) -> (out: String)
    ensures
        appends(profile_dir@, rel@) ==> joined(profile_dir@, rel@, out@),
{
    resolve_under(profile_dir, rel)
}

impl<'a> ProfileScaffold<'a> {
    /// The memory records directory this scaffold creates.
    pub fn memory_records_dir(&self) -> (out: String)
        ensures
            appends(self.profile_dir@, self.memory_root@) ==> joined(self.profile_dir@, self.memory_root@, out@),
    {
        resolve_relative(self.profile_dir, self.memory_root)
    }
}

} // verus!
