//! The virtual member: one logical tree merged from every source of a group.

use vstd::prelude::*;
use crate::group::Group;
use crate::member::Member;

verus! {

/// The winning contributor for one relative path.
#[derive(Debug)]
pub struct VirtualLeaf {
    pub file_rel_path: String,
    pub file_abs_path: String,
    pub priority: i32,
}

impl Clone for VirtualLeaf {
    fn clone(&self) -> (r: Self)
        ensures
            r == *self,
    {
        VirtualLeaf {
            file_rel_path: self.file_rel_path.clone(),
            file_abs_path: self.file_abs_path.clone(),
            priority: self.priority,
        }
    }
}

/// A regular file that a walk of a source found: its path relative to the
/// source's root and its absolute path.
#[derive(Debug)]
pub struct FoundFile {
    pub rel_path: String,
    pub abs_path: String,
}

/// The merged tree of a group's sources, one leaf per relative path, and the
/// highest priority among every candidate learned.
#[derive(Debug)]
pub struct VirtualMember {
    pub virtual_tree: Vec<VirtualLeaf>,
    pub highest_priority: i32,
}

/// No two leaves share a relative path.
pub open spec fn paths_unique(tree: Seq<VirtualLeaf>) -> bool {
    forall|i: int, j: int|
        0 <= i < tree.len() && 0 <= j < tree.len() && i != j
            ==> #[trigger] tree[i].file_rel_path@ != #[trigger] tree[j].file_rel_path@
}

pub open spec fn holds_path(tree: Seq<VirtualLeaf>, rel: Seq<char>) -> bool {
    exists|i: int| 0 <= i < tree.len() && #[trigger] tree[i].file_rel_path@ == rel
}

/// Index of the leaf for `rel`, where there is one.
pub open spec fn path_index(tree: Seq<VirtualLeaf>, rel: Seq<char>) -> int {
    choose|i: int| 0 <= i < tree.len() && #[trigger] tree[i].file_rel_path@ == rel
}

/// One candidate proposed to a tree: it takes its path's place when the path is new,
/// or when it is strictly more authoritative than the leaf there; otherwise the tree stays.
pub open spec fn learn_step(tree: Seq<VirtualLeaf>, c: VirtualLeaf) -> Seq<VirtualLeaf> {
    if holds_path(tree, c.file_rel_path@) {
        let i = path_index(tree, c.file_rel_path@);
        if tree[i].priority < c.priority {
            tree.update(i, c)
        } else {
            tree
        }
    } else {
        tree.push(c)
    }
}

/// The candidates proposed one after the other, in order.
pub open spec fn learn_all(tree: Seq<VirtualLeaf>, cands: Seq<VirtualLeaf>) -> Seq<VirtualLeaf>
    decreases cands.len(),
{
    if cands.len() == 0 {
        tree
    } else {
        learn_step(learn_all(tree, cands.drop_last()), cands.last())
    }
}

/// The highest priority among `h` and the candidates.
pub open spec fn highest_of(h: i32, cands: Seq<VirtualLeaf>) -> i32
    decreases cands.len(),
{
    if cands.len() == 0 {
        h
    } else {
        let rest = highest_of(h, cands.drop_last());
        if rest < cands.last().priority {
            cands.last().priority
        } else {
            rest
        }
    }
}

/// The candidates that a walk of `src` proposes.
pub open spec fn candidates_of(src: Member, files: Seq<FoundFile>) -> Seq<VirtualLeaf> {
    files.map_values(
        |f: FoundFile|
            VirtualLeaf { file_rel_path: f.rel_path, file_abs_path: f.abs_path, priority: src.priority() },
    )
}

/// The candidates of a group: those of each source member in the group's order;
/// `walks[m]` is what the walk of member `m` found.
pub open spec fn group_candidates(mems: Seq<Member>, walks: Seq<Vec<FoundFile>>) -> Seq<VirtualLeaf>
    decreases mems.len(),
{
    if mems.len() == 0 || walks.len() < mems.len() {
        Seq::empty()
    } else {
        let n = (mems.len() - 1) as int;
        let before = group_candidates(mems.drop_last(), walks.subrange(0, n));
        if mems.last().is_source() {
            before + candidates_of(mems.last(), walks[n]@)
        } else {
            before
        }
    }
}

proof fn lemma_learn_step_unique(tree: Seq<VirtualLeaf>, c: VirtualLeaf)
    requires
        paths_unique(tree),
    ensures
        paths_unique(learn_step(tree, c)),
{
    if holds_path(tree, c.file_rel_path@) {
        let i = path_index(tree, c.file_rel_path@);
        let t2 = learn_step(tree, c);
        assert forall|a: int, b: int|
            0 <= a < t2.len() && 0 <= b < t2.len() && a != b
                implies #[trigger] t2[a].file_rel_path@ != #[trigger] t2[b].file_rel_path@ by {
            if a != i && b != i {
                assert(t2[a] == tree[a] && t2[b] == tree[b]);
            }
        }
    } else {
        let t2 = tree.push(c);
        assert forall|a: int, b: int|
            0 <= a < t2.len() && 0 <= b < t2.len() && a != b
                implies #[trigger] t2[a].file_rel_path@ != #[trigger] t2[b].file_rel_path@ by {
            if a < tree.len() && b < tree.len() {
                assert(t2[a] == tree[a] && t2[b] == tree[b]);
            } else if a < tree.len() {
                assert(t2[a] == tree[a]);
            } else {
                assert(t2[b] == tree[b]);
            }
        }
    }
}

proof fn lemma_learn_all_append(tree: Seq<VirtualLeaf>, a: Seq<VirtualLeaf>, b: Seq<VirtualLeaf>)
    ensures
        learn_all(tree, a + b) == learn_all(learn_all(tree, a), b),
    decreases b.len(),
{
    if b.len() == 0 {
        assert(a + b == a);
    } else {
        assert((a + b).drop_last() == a + b.drop_last());
        assert((a + b).last() == b.last());
        lemma_learn_all_append(tree, a, b.drop_last());
    }
}

proof fn lemma_highest_of_append(h: i32, a: Seq<VirtualLeaf>, b: Seq<VirtualLeaf>)
    ensures
        highest_of(h, a + b) == highest_of(highest_of(h, a), b),
    decreases b.len(),
{
    if b.len() == 0 {
        assert(a + b == a);
    } else {
        assert((a + b).drop_last() == a + b.drop_last());
        assert((a + b).last() == b.last());
        lemma_highest_of_append(h, a, b.drop_last());
    }
}

impl VirtualMember {
    pub open spec fn wf(&self) -> bool {
        paths_unique(self.virtual_tree@)
    }

    /// A virtual member that has learned nothing.
    pub fn new() -> (r: VirtualMember)
        ensures
            r.wf(),
            r.virtual_tree@.len() == 0,
            r.highest_priority == i32::MIN,
    {
        VirtualMember { virtual_tree: Vec::new(), highest_priority: i32::MIN }
    }

    /// Proposes one candidate leaf.
    pub fn learn_from_leaf(&mut self, leaf: &VirtualLeaf)
        requires
            old(self).wf(),
        ensures
            final(self).wf(),
            final(self).virtual_tree@ == learn_step(old(self).virtual_tree@, *leaf),
            final(self).highest_priority == (if old(self).highest_priority < leaf.priority {
                leaf.priority
            } else {
                old(self).highest_priority
            }),
    {
        proof {
            lemma_learn_step_unique(self.virtual_tree@, *leaf);
        }
        if self.highest_priority < leaf.priority {
            self.highest_priority = leaf.priority;
        }
        let ghost t0 = self.virtual_tree@;
        assert(paths_unique(t0));
        let mut found: Option<usize> = None;
        let mut i: usize = 0;
        while i < self.virtual_tree.len()
            invariant
                i <= self.virtual_tree.len(),
                self.virtual_tree@ == t0,
                found is None ==> forall|j: int| 0 <= j < i ==> (#[trigger] self.virtual_tree@[j]).file_rel_path@ != leaf.file_rel_path@,
                found matches Some(k) ==> k < self.virtual_tree.len() && self.virtual_tree@[k as int].file_rel_path@ == leaf.file_rel_path@,
            ensures
                found is None ==> !holds_path(t0, leaf.file_rel_path@),
                found matches Some(k) ==> k < t0.len() && t0[k as int].file_rel_path@ == leaf.file_rel_path@,
            decreases self.virtual_tree.len() - i,
        {
            if self.virtual_tree[i].file_rel_path == leaf.file_rel_path {
                found = Some(i);
                break;
            }
            i = i + 1;
        }
        match found {
            Some(k) => {
                proof {
                    let c = path_index(self.virtual_tree@, leaf.file_rel_path@);
                    assert(holds_path(t0, leaf.file_rel_path@));
                    assert(t0[c].file_rel_path@ == leaf.file_rel_path@);
                    assert(c == k);
                }
                if self.virtual_tree[k].priority < leaf.priority {
                    self.virtual_tree.set(k, leaf.clone());
                    assert(self.virtual_tree@ == t0.update(k as int, *leaf));
                }

            },
            None => {
                self.virtual_tree.push(leaf.clone());
            },
        }
    }

    /// Proposes every file that the walk of `src` found, at `src`'s priority.
    pub fn learn(&mut self, src: &Member, files: &Vec<FoundFile>)
        requires
            old(self).wf(),
        ensures
            final(self).wf(),
            final(self).virtual_tree@ == learn_all(old(self).virtual_tree@, candidates_of(*src, files@)),
            final(self).highest_priority == highest_of(old(self).highest_priority, candidates_of(*src, files@)),
    {
        let ghost cands = candidates_of(*src, files@);
        let priority = src.mem_info.mem_conf.priority;
        let mut i: usize = 0;
        while i < files.len()
            invariant
                self.wf(),
                i <= files.len(),
                cands == candidates_of(*src, files@),
                priority == src.priority(),
                self.virtual_tree@ == learn_all(old(self).virtual_tree@, cands.subrange(0, i as int)),
                self.highest_priority == highest_of(old(self).highest_priority, cands.subrange(0, i as int)),
            decreases files.len() - i,
        {
            let leaf = VirtualLeaf {
                file_rel_path: files[i].rel_path.clone(),
                file_abs_path: files[i].abs_path.clone(),
                priority,
            };
            proof {
                let p = cands.subrange(0, i as int);
                let q = cands.subrange(0, i + 1);
                assert(leaf == cands[i as int]);
                assert(q.drop_last() == p);
                assert(q.last() == leaf);
            }
            self.learn_from_leaf(&leaf);
            i = i + 1;
        }
        proof {
            assert(cands.subrange(0, files@.len() as int) == cands);
        }
    }
}

/// Builds the virtual member of `gp`: every source member, in the group's order,
/// proposes what its walk found; `walks[m]` is the walk of member `m`.
pub fn build_virtual_member_from_group(gp: &Group, walks: &Vec<Vec<FoundFile>>) -> (r: VirtualMember)
    requires
        walks@.len() == gp.mems@.len(),
    ensures
        r.wf(),
        r.virtual_tree@ == learn_all(Seq::empty(), group_candidates(gp.mems@, walks@)),
        r.highest_priority == highest_of(i32::MIN, group_candidates(gp.mems@, walks@)),
{
    let mut vmem = VirtualMember::new();
    let mut m: usize = 0;
    while m < gp.mems.len()
        invariant
            vmem.wf(),
            m <= gp.mems.len(),
            walks@.len() == gp.mems@.len(),
            vmem.virtual_tree@ == learn_all(Seq::empty(), group_candidates(gp.mems@.subrange(0, m as int), walks@.subrange(0, m as int))),
            vmem.highest_priority == highest_of(i32::MIN, group_candidates(gp.mems@.subrange(0, m as int), walks@.subrange(0, m as int))),
        decreases gp.mems.len() - m,
    {
        let ghost before = group_candidates(gp.mems@.subrange(0, m as int), walks@.subrange(0, m as int));
        proof {
            let ms = gp.mems@.subrange(0, m + 1);
            let ws = walks@.subrange(0, m + 1);
            assert(ms.drop_last() == gp.mems@.subrange(0, m as int));
            assert(ws.subrange(0, m as int) == walks@.subrange(0, m as int));
            assert(ms.last() == gp.mems@[m as int]);
            assert(ws[m as int] == walks@[m as int]);
        }
        if gp.mems[m].mem_info.mem_conf.src_option.enable {
            vmem.learn(&gp.mems[m], &walks[m]);
            proof {
                let c = candidates_of(gp.mems@[m as int], walks@[m as int]@);
                lemma_learn_all_append(Seq::empty(), before, c);
                lemma_highest_of_append(i32::MIN, before, c);
            }
        }
        m = m + 1;
    }
    proof {
        assert(gp.mems@.subrange(0, gp.mems@.len() as int) == gp.mems@);
        assert(walks@.subrange(0, walks@.len() as int) == walks@);
    }
    vmem
}

/// Candidate `j` carries `rel`, no candidate carrying `rel` is more authoritative,
/// and every earlier one carrying `rel` is strictly less authoritative.
pub open spec fn is_first_highest(cands: Seq<VirtualLeaf>, rel: Seq<char>, j: int) -> bool {
    &&& 0 <= j < cands.len()
    &&& cands[j].file_rel_path@ == rel
    &&& forall|k: int|
        0 <= k < cands.len() && (#[trigger] cands[k]).file_rel_path@ == rel ==> cands[k].priority <= cands[j].priority
    &&& forall|k: int|
        0 <= k < j && (#[trigger] cands[k]).file_rel_path@ == rel ==> cands[k].priority < cands[j].priority
}

pub open spec fn proposes(cands: Seq<VirtualLeaf>, rel: Seq<char>) -> bool {
    exists|k: int| 0 <= k < cands.len() && (#[trigger] cands[k]).file_rel_path@ == rel
}

pub proof fn lemma_index_unique(t: Seq<VirtualLeaf>, rel: Seq<char>, i: int)
    requires
        paths_unique(t),
        0 <= i < t.len(),
        t[i].file_rel_path@ == rel,
    ensures
        holds_path(t, rel),
        path_index(t, rel) == i,
{
    assert(holds_path(t, rel));
    let c = path_index(t, rel);
    assert(t[c].file_rel_path@ == rel);
}

/// Merging is deterministic: the tree holds a leaf for a path exactly when some
/// candidate carries that path, and that leaf is the first candidate of the
/// highest priority among those that carry it.
pub proof fn lemma_merge_picks_first_highest(cands: Seq<VirtualLeaf>, rel: Seq<char>)
    ensures
        paths_unique(learn_all(Seq::empty(), cands)),
        holds_path(learn_all(Seq::empty(), cands), rel) <==> proposes(cands, rel),
        holds_path(learn_all(Seq::empty(), cands), rel) ==> exists|j: int|
            is_first_highest(cands, rel, j) && #[trigger] cands[j] == learn_all(Seq::empty(), cands)[path_index(
                learn_all(Seq::empty(), cands),
                rel,
            )],
    decreases cands.len(),
{
    let t = learn_all(Seq::empty(), cands);
    if cands.len() == 0 {
        assert(paths_unique(t));
        if holds_path(t, rel) {
            let i = path_index(t, rel);
            assert(t[i].file_rel_path@ == rel);
        }
    } else {
        let p = cands.drop_last();
        let c = cands.last();
        let n = p.len() as int;
        lemma_merge_picks_first_highest(p, rel);
        let tp = learn_all(Seq::empty(), p);
        assert(t == learn_step(tp, c));
        lemma_learn_step_unique(tp, c);
        assert forall|k: int| 0 <= k < n implies #[trigger] cands[k] == p[k] by {}
        assert(cands[n] == c);
        if c.file_rel_path@ != rel {
            // the entry for `rel`, if any, keeps its place
            if holds_path(tp, rel) {
                let i = path_index(tp, rel);
                assert(tp[i].file_rel_path@ == rel);
                assert(t[i] == tp[i]);
                lemma_index_unique(t, rel, i);
                let j = choose|j: int| is_first_highest(p, rel, j) && #[trigger] p[j] == tp[i];
                assert(cands[j] == p[j]);
                assert(is_first_highest(cands, rel, j));
                assert(proposes(cands, rel));
            } else {
                if holds_path(t, rel) {
                    let i = path_index(t, rel);
                    assert(t[i].file_rel_path@ == rel);
                    if i < tp.len() {
                        assert(t[i] == tp[i] || t[i] == c);
                        assert(t[i] == tp[i]);
                    }
                    assert(false);
                }
                if proposes(cands, rel) {
                    let k = choose|k: int| 0 <= k < cands.len() && (#[trigger] cands[k]).file_rel_path@ == rel;
                    assert(p[k].file_rel_path@ == rel);
                    assert(proposes(p, rel));
                    assert(false);
                }
            }
        } else {
            assert(proposes(cands, rel));
            if holds_path(tp, rel) {
                let i = path_index(tp, rel);
                assert(tp[i].file_rel_path@ == rel);
                let j = choose|j: int| is_first_highest(p, rel, j) && #[trigger] p[j] == tp[i];
                if tp[i].priority < c.priority {
                    assert(t == tp.update(i, c));
                    lemma_index_unique(t, rel, i);
                    assert(is_first_highest(cands, rel, n));
                } else {
                    assert(t == tp);
                    lemma_index_unique(t, rel, i);
                    assert(cands[j] == p[j]);
                    assert(is_first_highest(cands, rel, j));
                }
            } else {
                assert(t == tp.push(c));
                lemma_index_unique(t, rel, tp.len() as int);
                assert forall|k: int| 0 <= k < n implies (#[trigger] cands[k]).file_rel_path@ != rel by {
                    if cands[k].file_rel_path@ == rel {
                        assert(p[k].file_rel_path@ == rel);
                        assert(proposes(p, rel));
                    }
                }
                assert(is_first_highest(cands, rel, n));
            }
        }
    }
}

/// The highest priority is the maximum over every candidate, whether or not it
/// won its path, and it is one of their priorities when there is a candidate.
pub proof fn lemma_highest_is_maximum(cands: Seq<VirtualLeaf>)
    ensures
        forall|k: int| 0 <= k < cands.len() ==> (#[trigger] cands[k]).priority <= highest_of(i32::MIN, cands),
        cands.len() > 0 ==> exists|k: int| 0 <= k < cands.len() && (#[trigger] cands[k]).priority == highest_of(i32::MIN, cands),
    decreases cands.len(),
{
    if cands.len() > 0 {
        let p = cands.drop_last();
        lemma_highest_is_maximum(p);
        assert forall|k: int| 0 <= k < p.len() implies #[trigger] cands[k] == p[k] by {}
        let n = p.len() as int;
        assert(cands[n] == cands.last());
        if p.len() > 0 {
            let k = choose|k: int| 0 <= k < p.len() && (#[trigger] p[k]).priority == highest_of(i32::MIN, p);
            assert(cands[k] == p[k]);
        }
    }
}

} // verus!
