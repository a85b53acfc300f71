//! Members: one cabinet's participation in one group.

use vstd::prelude::*;
use crate::cabinet::CabinetInfo;
use crate::conf::MemberConfig;
use crate::storage::StorageInfo;

verus! {

#[derive(Debug)]
pub struct MemberInfo {
    pub mem_conf: MemberConfig,
    pub cab_info: CabinetInfo,
    pub stg_info: StorageInfo,
}

#[derive(Debug)]
pub struct Member {
    pub mem_info: MemberInfo,
}

impl Member {
    pub open spec fn priority(&self) -> i32 {
        self.mem_info.mem_conf.priority
    }

    pub open spec fn is_source(&self) -> bool {
        self.mem_info.mem_conf.src_option.enable
    }

    pub open spec fn is_destination(&self) -> bool {
        self.mem_info.mem_conf.dst_option.enable
    }

    pub open spec fn is_link_destination(&self) -> bool {
        self.mem_info.mem_conf.link_option.enable
    }
}

} // verus!
