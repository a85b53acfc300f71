//! Per-user settings.

use vstd::prelude::*;

verus! {

/// The external transfer tool's path and the storage roots to scan besides the
/// detected mounts.
#[derive(Debug)]
pub struct UserConfig {
    pub rclone_path: String,
    pub custom_storages: Vec<String>,
}

impl Default for UserConfig {
    fn default() -> (r: UserConfig)
        ensures
            r.rclone_path@.len() == 0,
            r.custom_storages@.len() == 0,
    {
        UserConfig { rclone_path: String::new(), custom_storages: Vec::new() }
    }
}

impl UserConfig {
    /// The roots to scan for cabinets: the detected mounts, then the custom storages.
    pub fn storage_roots(&self, mounts: &Vec<String>) -> (r: Vec<String>)
        requires
            mounts@.len() + self.custom_storages@.len() <= usize::MAX,
        ensures
            r@ == mounts@ + self.custom_storages@,
    {
        let mut r: Vec<String> = Vec::new();
        let mut i: usize = 0;
        while i < mounts.len()
            invariant
                i <= mounts.len(),
                r@ == mounts@.subrange(0, i as int),
            decreases mounts.len() - i,
        {
            r.push(mounts[i].clone());
            i = i + 1;
        }
        let mut j: usize = 0;
        while j < self.custom_storages.len()
            invariant
                mounts@.len() + self.custom_storages@.len() <= usize::MAX,
                j <= self.custom_storages.len(),
                r@ == mounts@ + self.custom_storages@.subrange(0, j as int),
            decreases self.custom_storages.len() - j,
        {
            r.push(self.custom_storages[j].clone());
            proof {
                assert(mounts@ + self.custom_storages@.subrange(0, j + 1) == (mounts@ + self.custom_storages@.subrange(0, j as int)).push(self.custom_storages@[j as int]));
            }
            j = j + 1;
        }
        proof {
            assert(mounts@.subrange(0, mounts@.len() as int) == mounts@);
            assert(self.custom_storages@.subrange(0, self.custom_storages@.len() as int) == self.custom_storages@);
        }
        r
    }
}

} // verus!
