//! Whether one leaf of the virtual tree is materialised at one destination.
//!
//! Copying consults the cover level for an entry that exists and the save level
//! for one that is missing; linking never replaces an existing entry.

use vstd::prelude::*;
use crate::conf::{cover_level_of, save_level_of, CoverLevel, MemberConfig, SaveLevel};
use crate::member::Member;
use crate::vmem::{VirtualLeaf, VirtualMember};

verus! {

/// What the propagation needs to know of a file: its size in bytes and its
/// modification time, in nanoseconds from the Unix epoch.
#[derive(Clone, Copy, Debug, PartialEq, Eq, Structural)]
pub struct FileStat {
    pub size: u64,
    pub modified: i128,
}

/// What stat said of the destination path of a leaf.
#[derive(Clone, Copy, Debug, PartialEq, Eq, Structural)]
pub enum DstState {
    Present(FileStat),
    /// Stat reported that nothing is there.
    Absent,
    /// Stat failed for another reason; the leaf is skipped.
    Unreadable,
}

/// What stat said of a leaf's destination and of its source (`None`: the source
/// could not be read).
#[derive(Clone, Copy, Debug, PartialEq, Eq, Structural)]
pub struct LeafProbe {
    pub dst: DstState,
    pub src: Option<FileStat>,
}

/// How the leaves reach a destination.
#[derive(Clone, Copy, Debug, PartialEq, Eq, Structural)]
pub enum Strategy {
    /// Byte copy; `strict` skips the staleness check.
    Copy { strict: bool },
    /// Symbolic link to the source file.
    Link,
}

/// The source differs in size from the destination, or was modified after it.
pub open spec fn is_stale(src: Option<FileStat>, dst: FileStat) -> bool {
    match src {
        None => false,
        Some(s) => s.size != dst.size || s.modified > dst.modified,
    }
}

/// Cover policy for an existing destination entry.
pub open spec fn cover_allows(cover: CoverLevel, dst_priority: i32, leaf_priority: i32, needed: bool) -> bool {
    match cover {
        CoverLevel::DontCover => false,
        CoverLevel::HigherCover => dst_priority < leaf_priority && needed,
        CoverLevel::Unknown => false,
    }
}

/// Save policy for a missing destination entry.
pub open spec fn save_allows(save: SaveLevel, dst_priority: i32, leaf_priority: i32) -> bool {
    match save {
        SaveLevel::DontSave => false,
        SaveLevel::SaveHigher => dst_priority < leaf_priority,
        SaveLevel::SaveHigherEqual => dst_priority <= leaf_priority,
        SaveLevel::SaveAll => true,
        SaveLevel::Unknown => false,
    }
}

/// Whether a copy of a leaf of priority `leaf_priority` is made at a destination declared by `conf`.
pub open spec fn copy_decision(conf: MemberConfig, leaf_priority: i32, probe: LeafProbe, strict: bool) -> bool {
    match probe.dst {
        DstState::Present(d) => cover_allows(
            cover_level_of(conf.dst_option.cover_level),
            conf.priority,
            leaf_priority,
            strict || is_stale(probe.src, d),
        ),
        DstState::Absent => save_allows(save_level_of(conf.dst_option.save_level), conf.priority, leaf_priority),
        DstState::Unreadable => false,
    }
}

/// Whether a link to a leaf of priority `leaf_priority` is made at a destination declared by `conf`.
pub open spec fn link_decision(conf: MemberConfig, leaf_priority: i32, probe: LeafProbe) -> bool {
    match probe.dst {
        DstState::Absent => save_allows(save_level_of(conf.link_option.save_level), conf.priority, leaf_priority),
        _ => false,
    }
}

pub open spec fn decision(strategy: Strategy, conf: MemberConfig, leaf_priority: i32, probe: LeafProbe) -> bool {
    match strategy {
        Strategy::Copy { strict } => copy_decision(conf, leaf_priority, probe, strict),
        Strategy::Link => link_decision(conf, leaf_priority, probe),
    }
}

/// Staleness check of the copy engine: a strict run always copies; otherwise a
/// source that differs in size or is newer is copied, and an unreadable one is not.
pub fn need_sync(src: Option<FileStat>, dst: FileStat, strict: bool) -> (r: bool)
    ensures
        r == (strict || is_stale(src, dst)),
{
    if strict {
        return true;
    }
    match src {
        None => false,
        Some(s) => s.size != dst.size || s.modified > dst.modified,
    }
}

/// Cover policy: whether an existing entry is overwritten.
pub fn cover_decision(cover: CoverLevel, dst_priority: i32, leaf_priority: i32, needed: bool) -> (r: bool)
    ensures
        r == cover_allows(cover, dst_priority, leaf_priority, needed),
{
    match cover {
        CoverLevel::DontCover => false,
        CoverLevel::HigherCover => dst_priority < leaf_priority && needed,
        CoverLevel::Unknown => false,
    }
}

/// Save policy: whether a missing entry is created.
pub fn save_decision(save: SaveLevel, dst_priority: i32, leaf_priority: i32) -> (r: bool)
    ensures
        r == save_allows(save, dst_priority, leaf_priority),
{
    match save {
        SaveLevel::DontSave => false,
        SaveLevel::SaveHigher => dst_priority < leaf_priority,
        SaveLevel::SaveHigherEqual => dst_priority <= leaf_priority,
        SaveLevel::SaveAll => true,
        SaveLevel::Unknown => false,
    }
}

impl Member {
    /// Whether `leaf` is materialised at this member, given what stat said.
    pub fn decide(&self, strategy: Strategy, leaf: &VirtualLeaf, probe: LeafProbe) -> (r: bool)
        ensures
            r == decision(strategy, self.mem_info.mem_conf, leaf.priority, probe),
    {
        let conf = &self.mem_info.mem_conf;
        match strategy {
            Strategy::Copy { strict } => match probe.dst {
                DstState::Present(d) => {
                    let needed = need_sync(probe.src, d, strict);
                    cover_decision(CoverLevel::from(conf.dst_option.cover_level), conf.priority, leaf.priority, needed)
                },
                DstState::Absent => save_decision(SaveLevel::from(conf.dst_option.save_level), conf.priority, leaf.priority),
                DstState::Unreadable => false,
            },
            Strategy::Link => match probe.dst {
                DstState::Absent => save_decision(SaveLevel::from(conf.link_option.save_level), conf.priority, leaf.priority),
                _ => false,
            },
        }
    }

    /// For each leaf of `vmem`, whether it is materialised at this member;
    /// `probes[l]` is what stat said for leaf `l`.
    pub fn plan_from_vmem(&self, strategy: Strategy, vmem: &VirtualMember, probes: &Vec<LeafProbe>) -> (r: Vec<bool>)
        requires
            probes@.len() == vmem.virtual_tree@.len(),
        ensures
            r@.len() == vmem.virtual_tree@.len(),
            forall|l: int| 0 <= l < r@.len() ==> #[trigger] r@[l] == decision(
                strategy,
                self.mem_info.mem_conf,
                vmem.virtual_tree@[l].priority,
                probes@[l],
            ),
    {
        let mut r: Vec<bool> = Vec::new();
        let mut l: usize = 0;
        while l < vmem.virtual_tree.len()
            invariant
                probes@.len() == vmem.virtual_tree@.len(),
                l <= vmem.virtual_tree.len(),
                r@.len() == l,
                forall|k: int| 0 <= k < l ==> #[trigger] r@[k] == decision(
                    strategy,
                    self.mem_info.mem_conf,
                    vmem.virtual_tree@[k].priority,
                    probes@[k],
                ),
            decreases vmem.virtual_tree.len() - l,
        {
            let d = self.decide(strategy, &vmem.virtual_tree[l], probes[l]);
            r.push(d);
            l = l + 1;
        }
        r
    }
}

} // verus!
