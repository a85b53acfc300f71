//! Storages: physical roots and the cabinets found directly beneath them.

use vstd::prelude::*;
use crate::cabinet::Cabinet;

verus! {

#[derive(Debug)]
pub struct StorageInfo {
    pub abs_path: String,
}

impl Clone for StorageInfo {
    fn clone(&self) -> (r: Self)
        ensures
            r == *self,
    {
        StorageInfo { abs_path: self.abs_path.clone() }
    }
}

#[derive(Debug)]
pub struct Storage {
    pub stg_info: StorageInfo,
    pub cabs: Vec<Cabinet>,
}

/// The storage at `abs_path` holding `cabs`; a root without cabinets is not a storage.
pub fn build_storage(abs_path: String, cabs: Vec<Cabinet>) -> (r: Option<Storage>)
    ensures
        r is None <==> cabs@.len() == 0,
        r matches Some(s) ==> s.stg_info.abs_path == abs_path && s.cabs@ == cabs@,
{
    if cabs.len() == 0 {
        None
    } else {
        Some(Storage { stg_info: StorageInfo { abs_path }, cabs })
    }
}

} // verus!
