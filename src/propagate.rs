//! Propagation passes of a group: which leaves are copied or linked at which member,
//! and which files a clean pass removes.

use vstd::prelude::*;
use crate::group::Group;
use crate::member::Member;
use crate::policy::{copy_decision, decision, is_stale, link_decision, DstState, FileStat, LeafProbe, Strategy};
use crate::conf::MemberConfig;
use crate::vmem::{holds_path, lemma_index_unique, path_index, VirtualLeaf, VirtualMember};

verus! {

/// Whether `mem` receives leaves under `strategy`: destinations get copies,
/// link destinations get links.
pub open spec fn takes_part(mem: Member, strategy: Strategy) -> bool {
    match strategy {
        Strategy::Copy { .. } => mem.is_destination(),
        Strategy::Link => mem.is_link_destination(),
    }
}

/// A plan of a pass: one row per member, empty for a member that takes no part,
/// else one decision per leaf.
pub open spec fn is_plan(
    mems: Seq<Member>,
    strategy: Strategy,
    tree: Seq<VirtualLeaf>,
    probes: Seq<Vec<LeafProbe>>,
    r: Seq<Vec<bool>>,
) -> bool {
    &&& r.len() == mems.len()
    &&& forall|m: int|
        0 <= m < mems.len() ==> if takes_part(#[trigger] mems[m], strategy) {
            &&& r[m]@.len() == tree.len()
            &&& forall|l: int|
                0 <= l < tree.len() ==> #[trigger] r[m]@[l] == decision(
                    strategy,
                    mems[m].mem_info.mem_conf,
                    tree[l].priority,
                    probes[m]@[l],
                )
        } else {
            r[m]@.len() == 0
        }
}

/// What a pass needs from stat: a probe of every leaf at every member that takes part.
pub open spec fn probes_fit(mems: Seq<Member>, strategy: Strategy, tree: Seq<VirtualLeaf>, probes: Seq<Vec<LeafProbe>>) -> bool {
    &&& probes.len() == mems.len()
    &&& forall|m: int|
        0 <= m < mems.len() && takes_part(#[trigger] mems[m], strategy) ==> probes[m]@.len() == tree.len()
}

impl Group {
    fn plan_from_vmem(&self, strategy: Strategy, vmem: &VirtualMember, probes: &Vec<Vec<LeafProbe>>) -> (r: Vec<Vec<bool>>)
        requires
            probes_fit(self.mems@, strategy, vmem.virtual_tree@, probes@),
        ensures
            is_plan(self.mems@, strategy, vmem.virtual_tree@, probes@, r@),
    {
        let mut r: Vec<Vec<bool>> = Vec::new();
        let mut m: usize = 0;
        while m < self.mems.len()
            invariant
                probes_fit(self.mems@, strategy, vmem.virtual_tree@, probes@),
                m <= self.mems.len(),
                r@.len() == m,
                forall|k: int|
                    0 <= k < m ==> if takes_part(#[trigger] self.mems@[k], strategy) {
                        &&& r@[k]@.len() == vmem.virtual_tree@.len()
                        &&& forall|l: int|
                            0 <= l < vmem.virtual_tree@.len() ==> #[trigger] r@[k]@[l] == decision(
                                strategy,
                                self.mems@[k].mem_info.mem_conf,
                                vmem.virtual_tree@[l].priority,
                                probes@[k]@[l],
                            )
                    } else {
                        r@[k]@.len() == 0
                    },
            decreases self.mems.len() - m,
        {
            let mem = &self.mems[m];
            let part = match strategy {
                Strategy::Copy { .. } => mem.mem_info.mem_conf.dst_option.enable,
                Strategy::Link => mem.mem_info.mem_conf.link_option.enable,
            };
            if part {
                let row = mem.plan_from_vmem(strategy, vmem, &probes[m]);
                r.push(row);
            } else {
                r.push(Vec::new());
            }
            m = m + 1;
        }
        r
    }

    /// Copy pass: for every destination member, which leaves are copied there;
    /// `probes[m][l]` is what stat said of leaf `l` at member `m`.
    pub fn sync_from_vmem(&self, vmem: &VirtualMember, probes: &Vec<Vec<LeafProbe>>, strict: bool) -> (r: Vec<Vec<bool>>)
        requires
            probes_fit(self.mems@, Strategy::Copy { strict }, vmem.virtual_tree@, probes@),
        ensures
            is_plan(self.mems@, Strategy::Copy { strict }, vmem.virtual_tree@, probes@, r@),
    {
        self.plan_from_vmem(Strategy::Copy { strict }, vmem, probes)
    }

    /// Link pass: for every link-destination member, which leaves are linked there.
    pub fn link_from_vmem(&self, vmem: &VirtualMember, probes: &Vec<Vec<LeafProbe>>) -> (r: Vec<Vec<bool>>)
        requires
            probes_fit(self.mems@, Strategy::Link, vmem.virtual_tree@, probes@),
        ensures
            is_plan(self.mems@, Strategy::Link, vmem.virtual_tree@, probes@, r@),
    {
        self.plan_from_vmem(Strategy::Link, vmem, probes)
    }
}

/// The state of a destination after a successful copy of a source of stat `s`:
/// the same size, and modified no earlier than the source.
pub open spec fn copied_from(d: DstState, s: Option<FileStat>) -> bool {
    match (d, s) {
        (DstState::Present(d), Some(s)) => d.size == s.size && d.modified >= s.modified,
        _ => false,
    }
}

/// A copy pass converges: when the sources are unchanged, every copy of the first
/// pass succeeded and nothing else changed at the destination, a second pass with the
/// staleness check in effect copies nothing.
pub proof fn lemma_second_sync_copies_nothing(
    conf: MemberConfig,
    tree: Seq<VirtualLeaf>,
    first: Seq<LeafProbe>,
    second: Seq<LeafProbe>,
)
    requires
        first.len() == tree.len(),
        second.len() == tree.len(),
        forall|l: int|
            0 <= l < tree.len() ==> if copy_decision(conf, tree[l].priority, #[trigger] first[l], false) {
                second[l].src == first[l].src && copied_from(second[l].dst, first[l].src)
            } else {
                second[l] == first[l]
            },
    ensures
        forall|l: int| 0 <= l < tree.len() ==> !copy_decision(conf, tree[l].priority, #[trigger] second[l], false),
{
    assert forall|l: int| 0 <= l < tree.len() implies !copy_decision(conf, tree[l].priority, #[trigger] second[l], false) by {
        if copy_decision(conf, tree[l].priority, first[l], false) {
            assert(!is_stale(second[l].src, second[l].dst->Present_0));
        }
    }
}

/// Whether a clean pass removes a destination file at relative path `rel`: only a
/// file the tree knows, whose winning leaf is below the group's highest priority.
pub open spec fn clean_decision(vmem: VirtualMember, rel: Seq<char>) -> bool {
    holds_path(vmem.virtual_tree@, rel) && vmem.virtual_tree@[path_index(vmem.virtual_tree@, rel)].priority
        < vmem.highest_priority
}

impl VirtualMember {
    /// The index of the leaf for `rel`, if the tree has one.
    pub fn lookup(&self, rel: &String) -> (r: Option<usize>)
        requires
            self.wf(),
        ensures
            r is None <==> !holds_path(self.virtual_tree@, rel@),
            r matches Some(i) ==> i == path_index(self.virtual_tree@, rel@) && i < self.virtual_tree@.len(),
    {
        let mut i: usize = 0;
        while i < self.virtual_tree.len()
            invariant
                self.wf(),
                i <= self.virtual_tree.len(),
                forall|j: int| 0 <= j < i ==> (#[trigger] self.virtual_tree@[j]).file_rel_path@ != rel@,
            decreases self.virtual_tree.len() - i,
        {
            if self.virtual_tree[i].file_rel_path == *rel {
                proof {
                    lemma_index_unique(self.virtual_tree@, rel@, i as int);
                }
                return Some(i);
            }
            i = i + 1;
        }
        None
    }
}

impl Member {
    /// Clean pass at this member: for each regular file that the walk of this member
    /// found (by relative path), whether it is removed.
    pub fn clean_from_vmem(&self, vmem: &VirtualMember, files: &Vec<String>) -> (r: Vec<bool>)
        requires
            vmem.wf(),
        ensures
            r@.len() == files@.len(),
            forall|k: int| 0 <= k < files@.len() ==> #[trigger] r@[k] == clean_decision(*vmem, files@[k]@),
            forall|k: int| 0 <= k < files@.len() && !holds_path(vmem.virtual_tree@, files@[k]@) ==> !#[trigger] r@[k],
    {
        let mut r: Vec<bool> = Vec::new();
        let mut k: usize = 0;
        while k < files.len()
            invariant
                vmem.wf(),
                k <= files.len(),
                r@.len() == k,
                forall|j: int| 0 <= j < k ==> #[trigger] r@[j] == clean_decision(*vmem, files@[j]@),
            decreases files.len() - k,
        {
            let remove = match vmem.lookup(&files[k]) {
                None => false,
                Some(i) => vmem.virtual_tree[i].priority < vmem.highest_priority,
            };
            r.push(remove);
            k = k + 1;
        }
        r
    }
}

impl Group {
    /// Clean pass: for every destination member, which of the files its walk found
    /// are removed; `files[m]` lists them for member `m`, by relative path.
    pub fn clean_from_vmem(&self, vmem: &VirtualMember, files: &Vec<Vec<String>>) -> (r: Vec<Vec<bool>>)
        requires
            vmem.wf(),
            files@.len() == self.mems@.len(),
        ensures
            r@.len() == self.mems@.len(),
            forall|m: int|
                0 <= m < self.mems@.len() ==> if (#[trigger] self.mems@[m]).is_destination() {
                    &&& r@[m]@.len() == files@[m]@.len()
                    &&& forall|k: int|
                        0 <= k < files@[m]@.len() ==> #[trigger] r@[m]@[k] == clean_decision(*vmem, files@[m]@[k]@)
                } else {
                    r@[m]@.len() == 0
                },
    {
        let mut r: Vec<Vec<bool>> = Vec::new();
        let mut m: usize = 0;
        while m < self.mems.len()
            invariant
                vmem.wf(),
                files@.len() == self.mems@.len(),
                m <= self.mems.len(),
                r@.len() == m,
                forall|j: int|
                    0 <= j < m ==> if (#[trigger] self.mems@[j]).is_destination() {
                        &&& r@[j]@.len() == files@[j]@.len()
                        &&& forall|k: int|
                            0 <= k < files@[j]@.len() ==> #[trigger] r@[j]@[k] == clean_decision(*vmem, files@[j]@[k]@)
                    } else {
                        r@[j]@.len() == 0
                    },
            decreases self.mems.len() - m,
        {
            if self.mems[m].mem_info.mem_conf.dst_option.enable {
                let row = self.mems[m].clean_from_vmem(vmem, &files[m]);
                r.push(row);
            } else {
                r.push(Vec::new());
            }
            m = m + 1;
        }
        r
    }
}

} // verus!
