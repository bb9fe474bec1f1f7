use vstd::prelude::*;

use crate::policy::{convert_dir_perms, dir_perms_spec};

verus! {

/// What enforcement applies: bits for files, bits for directories, and whether
/// the nine rwx bits must match exactly or only be added.
#[derive(Clone, Copy, Debug, PartialEq, Eq)]
pub struct PermConfig {
    pub perms: u32,
    pub dir_perms: u32,
    pub exact: bool,
}

impl PermConfig {
    /// Builds a configuration; directory bits that are not given are derived
    /// from the file bits (each read bit adds its execute bit).
    pub fn new(perms: u32, dir_perms: Option<u32>, exact: bool) -> (r: PermConfig)
        ensures
            r.perms == perms,
            r.exact == exact,
            r.dir_perms == match dir_perms {
                Some(d) => d,
                None => dir_perms_spec(perms),
            },
    {
        let dir_perms = match dir_perms {
            Some(d) => d,
            None => convert_dir_perms(perms),
        };
        PermConfig { perms, dir_perms, exact }
    }

    /// The bits wanted for an entry, by whether it is a directory.
    pub open spec fn wanted(self, is_dir: bool) -> u32 {
        if is_dir {
            self.dir_perms
        } else {
            self.perms
        }
    }
}

} // verus!
