//! Groups: every member that declared the same group identifier.

use vstd::prelude::*;
use crate::cabinet::same_cabinet;
use crate::member::{Member, MemberInfo};
use crate::storage::Storage;

verus! {

#[derive(Debug)]
pub struct GroupInfo {
    pub gp_uuid: String,
}

#[derive(Debug)]
pub struct Group {
    pub gp_info: GroupInfo,
    pub mems: Vec<Member>,
}

/// A membership declaration, named by storage, cabinet and membership index.
pub type DeclIndex = (int, int, int);

pub open spec fn n_cabs(stgs: Seq<Storage>, s: int) -> int {
    stgs[s].cabs@.len() as int
}

pub open spec fn n_decls(stgs: Seq<Storage>, s: int, c: int) -> int {
    stgs[s].cabs@[c].cab_info.cab_conf.memberships@.len() as int
}

pub open spec fn uuid_at(stgs: Seq<Storage>, t: DeclIndex) -> Seq<char> {
    stgs[t.0].cabs@[t.1].cab_info.cab_conf.memberships@[t.2].group_uuid@
}

/// The first `k` declarations of cabinet `c` of storage `s`.
pub open spec fn cab_decls(s: int, c: int, k: int) -> Seq<DeclIndex>
    decreases k,
{
    if k <= 0 {
        Seq::empty()
    } else {
        cab_decls(s, c, k - 1).push((s, c, k - 1))
    }
}

/// The declarations of the first `c` cabinets of storage `s`.
pub open spec fn stg_decls(stgs: Seq<Storage>, s: int, c: int) -> Seq<DeclIndex>
    decreases c,
{
    if c <= 0 {
        Seq::empty()
    } else {
        stg_decls(stgs, s, c - 1) + cab_decls(s, c - 1, n_decls(stgs, s, c - 1))
    }
}

/// The declarations of the first `s` storages.
pub open spec fn decls_upto(stgs: Seq<Storage>, s: int) -> Seq<DeclIndex>
    decreases s,
{
    if s <= 0 {
        Seq::empty()
    } else {
        decls_upto(stgs, s - 1) + stg_decls(stgs, s - 1, n_cabs(stgs, s - 1))
    }
}

/// Every membership declaration, storage by storage, cabinet by cabinet.
pub open spec fn declarations(stgs: Seq<Storage>) -> Seq<DeclIndex> {
    decls_upto(stgs, stgs.len() as int)
}

/// The declarations among `ds` that name group `u`, in order.
pub open spec fn naming(stgs: Seq<Storage>, ds: Seq<DeclIndex>, u: Seq<char>) -> Seq<DeclIndex> {
    ds.filter(|t: DeclIndex| uuid_at(stgs, t) == u)
}

/// `m` is the member that declaration `t` makes: its declaration, its cabinet and its storage.
pub open spec fn made_from(m: Member, stgs: Seq<Storage>, t: DeclIndex) -> bool {
    &&& m.mem_info.mem_conf == stgs[t.0].cabs@[t.1].cab_info.cab_conf.memberships@[t.2]
    &&& same_cabinet(m.mem_info.cab_info, stgs[t.0].cabs@[t.1].cab_info)
    &&& m.mem_info.stg_info == stgs[t.0].stg_info
}

/// `gs` groups the declarations `ds`: one group per distinct identifier, none other,
/// and each group holds the members of the declarations naming it, in order.
pub open spec fn groups_match(gs: Seq<Group>, stgs: Seq<Storage>, ds: Seq<DeclIndex>) -> bool {
    &&& forall|a: int, b: int|
        0 <= a < gs.len() && 0 <= b < gs.len() && a != b
            ==> #[trigger] gs[a].gp_info.gp_uuid@ != #[trigger] gs[b].gp_info.gp_uuid@
    &&& forall|g: int| 0 <= g < gs.len() ==> naming(stgs, ds, (#[trigger] gs[g]).gp_info.gp_uuid@).len() > 0
    &&& forall|g: int|
        0 <= g < gs.len() ==> (#[trigger] gs[g]).mems@.len() == naming(stgs, ds, gs[g].gp_info.gp_uuid@).len()
    &&& forall|g: int, k: int|
        0 <= g < gs.len() && 0 <= k < gs[g].mems@.len() ==> made_from(
            #[trigger] gs[g].mems@[k],
            stgs,
            naming(stgs, ds, gs[g].gp_info.gp_uuid@)[k],
        )
    &&& forall|i: int|
        0 <= i < ds.len() ==> exists|g: int| 0 <= g < gs.len() && #[trigger] gs[g].gp_info.gp_uuid@ == uuid_at(stgs, #[trigger] ds[i])
}

proof fn lemma_naming_push(stgs: Seq<Storage>, ds: Seq<DeclIndex>, t: DeclIndex, u: Seq<char>)
    ensures
        naming(stgs, ds.push(t), u) == (if uuid_at(stgs, t) == u {
            naming(stgs, ds, u).push(t)
        } else {
            naming(stgs, ds, u)
        }),
{
    reveal(Seq::filter);
    assert(ds.push(t).drop_last() == ds);
}

proof fn lemma_naming_empty(stgs: Seq<Storage>, u: Seq<char>)
    ensures
        naming(stgs, Seq::<DeclIndex>::empty(), u).len() == 0,
{
    reveal(Seq::filter);
}

/// Puts `member`, made from declaration `t`, into the group its declaration names,
/// opening that group when it is new.
fn add_member(gs: &mut Vec<Group>, member: Member, Ghost(stgs): Ghost<Seq<Storage>>, Ghost(ds): Ghost<Seq<DeclIndex>>, Ghost(t): Ghost<DeclIndex>)
    requires
        groups_match(old(gs)@, stgs, ds),
        made_from(member, stgs, t),
        member.mem_info.mem_conf.group_uuid@ == uuid_at(stgs, t),
    ensures
        groups_match(final(gs)@, stgs, ds.push(t)),
{
    let ghost old_gs = gs@;
    let ghost u = uuid_at(stgs, t);
    let ghost ds2 = ds.push(t);
    let mut found: Option<usize> = None;
    let mut g: usize = 0;
    while g < gs.len()
        invariant_except_break
            g <= gs.len(),
            forall|h: int| 0 <= h < g ==> (#[trigger] gs@[h]).gp_info.gp_uuid@ != u,
        invariant
            gs@ == old_gs,
            member.mem_info.mem_conf.group_uuid@ == u,
            found matches Some(k) ==> k < gs.len() && gs@[k as int].gp_info.gp_uuid@ == u,
        ensures
            found is None ==> forall|h: int| 0 <= h < gs.len() ==> (#[trigger] gs@[h]).gp_info.gp_uuid@ != u,
        decreases gs.len() - g,
    {
        if gs[g].gp_info.gp_uuid == member.mem_info.mem_conf.group_uuid {
            found = Some(g);
            break;
        }
        g = g + 1;
    }
    match found {
        Some(k) => {
            gs[k].mems.push(member);
            proof {
                let new_gs = gs@;
                assert forall|h: int| 0 <= h < new_gs.len() implies
                    #[trigger] naming(stgs, ds2, new_gs[h].gp_info.gp_uuid@) == (if h == k {
                        naming(stgs, ds, u).push(t)
                    } else {
                        naming(stgs, ds, old_gs[h].gp_info.gp_uuid@)
                    }) && new_gs[h].gp_info.gp_uuid@ == old_gs[h].gp_info.gp_uuid@ by {
                    lemma_naming_push(stgs, ds, t, old_gs[h].gp_info.gp_uuid@);
                    if h != k {
                        assert(old_gs[h].gp_info.gp_uuid@ != old_gs[k as int].gp_info.gp_uuid@);
                        assert(new_gs[h] == old_gs[h]);
                    }
                }
                assert forall|h: int, j: int|
                    0 <= h < new_gs.len() && 0 <= j < new_gs[h].mems@.len() implies made_from(
                        #[trigger] new_gs[h].mems@[j],
                        stgs,
                        naming(stgs, ds2, new_gs[h].gp_info.gp_uuid@)[j],
                    ) by {
                    assert(naming(stgs, ds2, new_gs[h].gp_info.gp_uuid@) == (if h == k {
                        naming(stgs, ds, u).push(t)
                    } else {
                        naming(stgs, ds, old_gs[h].gp_info.gp_uuid@)
                    }));
                    if h != k {
                        assert(new_gs[h] == old_gs[h]);
                    } else if j < old_gs[h].mems@.len() {
                        assert(new_gs[h].mems@[j] == old_gs[h].mems@[j]);
                    }
                }
                assert forall|h: int| 0 <= h < new_gs.len() implies (#[trigger] new_gs[h]).mems@.len() == naming(
                    stgs,
                    ds2,
                    new_gs[h].gp_info.gp_uuid@,
                ).len() && naming(stgs, ds2, new_gs[h].gp_info.gp_uuid@).len() > 0 by {
                    assert(naming(stgs, ds2, new_gs[h].gp_info.gp_uuid@) == (if h == k {
                        naming(stgs, ds, u).push(t)
                    } else {
                        naming(stgs, ds, old_gs[h].gp_info.gp_uuid@)
                    }));
                    if h != k {
                        assert(new_gs[h] == old_gs[h]);
                    }
                }
                assert forall|i: int| 0 <= i < ds2.len() implies exists|h: int|
                    0 <= h < new_gs.len() && #[trigger] new_gs[h].gp_info.gp_uuid@ == uuid_at(stgs, #[trigger] ds2[i]) by {
                    if i < ds.len() {
                        assert(ds2[i] == ds[i]);
                        let h = choose|h: int| 0 <= h < old_gs.len() && #[trigger] old_gs[h].gp_info.gp_uuid@ == uuid_at(stgs, ds[i]);
                        assert(new_gs[h].gp_info.gp_uuid@ == old_gs[h].gp_info.gp_uuid@);
                    } else {
                        assert(new_gs[k as int].gp_info.gp_uuid@ == u);
                    }
                }
            }
        },
        None => {
            let uuid = member.mem_info.mem_conf.group_uuid.clone();
            let mut mems: Vec<Member> = Vec::new();
            mems.push(member);
            gs.push(Group { gp_info: GroupInfo { gp_uuid: uuid }, mems });
            proof {
                let new_gs = gs@;
                let n = old_gs.len() as int;
                lemma_naming_empty(stgs, u);
                assert forall|i: int| 0 <= i < ds.len() implies uuid_at(stgs, #[trigger] ds[i]) != u by {
                    let h = choose|h: int| 0 <= h < old_gs.len() && #[trigger] old_gs[h].gp_info.gp_uuid@ == uuid_at(stgs, ds[i]);
                }
                ds.lemma_all_neg_filter_empty(|t: DeclIndex| uuid_at(stgs, t) == u);
                assert forall|h: int| 0 <= h < new_gs.len() implies
                    #[trigger] naming(stgs, ds2, new_gs[h].gp_info.gp_uuid@) == (if h == n {
                        naming(stgs, ds, u).push(t)
                    } else {
                        naming(stgs, ds, old_gs[h].gp_info.gp_uuid@)
                    }) && (h < n ==> new_gs[h] == old_gs[h]) by {
                    if h < n {
                        assert(new_gs[h] == old_gs[h]);
                        lemma_naming_push(stgs, ds, t, old_gs[h].gp_info.gp_uuid@);
                    } else {
                        lemma_naming_push(stgs, ds, t, u);
                    }
                }
                assert(naming(stgs, ds, u).push(t) == seq![t]);
                assert forall|a: int, b: int|
                    0 <= a < new_gs.len() && 0 <= b < new_gs.len() && a != b
                        implies #[trigger] new_gs[a].gp_info.gp_uuid@ != #[trigger] new_gs[b].gp_info.gp_uuid@ by {
                    if a < n && b < n {
                        assert(new_gs[a] == old_gs[a] && new_gs[b] == old_gs[b]);
                    } else if a < n {
                        assert(new_gs[a] == old_gs[a]);
                    } else {
                        assert(new_gs[b] == old_gs[b]);
                    }
                }
                assert forall|h: int| 0 <= h < new_gs.len() implies (#[trigger] new_gs[h]).mems@.len() == naming(
                    stgs,
                    ds2,
                    new_gs[h].gp_info.gp_uuid@,
                ).len() && naming(stgs, ds2, new_gs[h].gp_info.gp_uuid@).len() > 0 by {
                    assert(naming(stgs, ds2, new_gs[h].gp_info.gp_uuid@) == (if h == n {
                        naming(stgs, ds, u).push(t)
                    } else {
                        naming(stgs, ds, old_gs[h].gp_info.gp_uuid@)
                    }));
                }
                assert forall|h: int, j: int|
                    0 <= h < new_gs.len() && 0 <= j < new_gs[h].mems@.len() implies made_from(
                        #[trigger] new_gs[h].mems@[j],
                        stgs,
                        naming(stgs, ds2, new_gs[h].gp_info.gp_uuid@)[j],
                    ) by {
                    assert(naming(stgs, ds2, new_gs[h].gp_info.gp_uuid@) == (if h == n {
                        naming(stgs, ds, u).push(t)
                    } else {
                        naming(stgs, ds, old_gs[h].gp_info.gp_uuid@)
                    }));
                }
                assert forall|i: int| 0 <= i < ds2.len() implies exists|h: int|
                    0 <= h < new_gs.len() && #[trigger] new_gs[h].gp_info.gp_uuid@ == uuid_at(stgs, #[trigger] ds2[i]) by {
                    if i < ds.len() {
                        assert(ds2[i] == ds[i]);
                        let h = choose|h: int| 0 <= h < old_gs.len() && #[trigger] old_gs[h].gp_info.gp_uuid@ == uuid_at(stgs, ds[i]);
                        assert(new_gs[h] == old_gs[h]);
                    } else {
                        assert(new_gs[n].gp_info.gp_uuid@ == u);
                    }
                }
            }
        },
    }
}

/// Groups every membership declaration of every cabinet of `stgs` by the group it
/// names, one member per declaration. Groups come in the order in which their
/// identifier first appears; each group's members in declaration order.
pub fn build_group_map_from_storages(stgs: &Vec<Storage>) -> (r: Vec<Group>)
    ensures
        groups_match(r@, stgs@, declarations(stgs@)),
{
    let mut gs: Vec<Group> = Vec::new();
    let ghost mut ds: Seq<DeclIndex> = Seq::empty();
    let mut s: usize = 0;
    while s < stgs.len()
        invariant
            s <= stgs.len(),
            ds == decls_upto(stgs@, s as int),
            groups_match(gs@, stgs@, ds),
        decreases stgs.len() - s,
    {
        let stg = &stgs[s];
        let ghost base = ds;
        let mut c: usize = 0;
        while c < stg.cabs.len()
            invariant
                s < stgs.len(),
                *stg == stgs@[s as int],
                c <= stg.cabs.len(),
                base == decls_upto(stgs@, s as int),
                ds == base + stg_decls(stgs@, s as int, c as int),
                groups_match(gs@, stgs@, ds),
            decreases stg.cabs.len() - c,
        {
            let cab = &stg.cabs[c];
            let ghost mid = ds;
            let mut k: usize = 0;
            while k < cab.cab_info.cab_conf.memberships.len()
                invariant
                    s < stgs.len(),
                    *stg == stgs@[s as int],
                    c < stg.cabs.len(),
                    *cab == stg.cabs@[c as int],
                    k <= cab.cab_info.cab_conf.memberships.len(),
                    mid == base + stg_decls(stgs@, s as int, c as int),
                    ds == mid + cab_decls(s as int, c as int, k as int),
                    groups_match(gs@, stgs@, ds),
                decreases cab.cab_info.cab_conf.memberships.len() - k,
            {
                let mem_conf = &cab.cab_info.cab_conf.memberships[k];
                let member = Member {
                    mem_info: MemberInfo {
                        mem_conf: mem_conf.clone(),
                        cab_info: cab.cab_info.clone(),
                        stg_info: stg.stg_info.clone(),
                    },
                };
                let ghost t: DeclIndex = (s as int, c as int, k as int);
                add_member(&mut gs, member, Ghost(stgs@), Ghost(ds), Ghost(t));
                proof {
                    assert(cab_decls(s as int, c as int, k + 1) == cab_decls(s as int, c as int, k as int).push(t));
                    assert(mid + cab_decls(s as int, c as int, k + 1) == (mid + cab_decls(s as int, c as int, k as int)).push(t));
                    ds = ds.push(t);
                }
                k = k + 1;
            }
            proof {
                assert(stg_decls(stgs@, s as int, c + 1) == stg_decls(stgs@, s as int, c as int) + cab_decls(
                    s as int,
                    c as int,
                    n_decls(stgs@, s as int, c as int),
                ));
                assert(ds == base + stg_decls(stgs@, s as int, c + 1));
            }
            c = c + 1;
        }
        proof {
            assert(decls_upto(stgs@, s + 1) == decls_upto(stgs@, s as int) + stg_decls(stgs@, s as int, n_cabs(stgs@, s as int)));
        }
        s = s + 1;
    }
    gs
}

/// Index of the first group of `gs` identified by `u`, if any.
pub open spec fn first_group(gs: Seq<Group>, u: Seq<char>) -> Option<int>
    decreases gs.len(),
{
    if gs.len() == 0 {
        None
    } else {
        match first_group(gs.drop_last(), u) {
            Some(i) => Some(i),
            None => if gs.last().gp_info.gp_uuid@ == u {
                Some(gs.len() - 1)
            } else {
                None
            },
        }
    }
}

/// The groups that a list of identifiers selects, in the list's order, and the
/// identifiers that name no group.
pub open spec fn selection(gs: Seq<Group>, us: Seq<String>) -> (Seq<usize>, Seq<Seq<char>>)
    decreases us.len(),
{
    if us.len() == 0 {
        (Seq::empty(), Seq::empty())
    } else {
        let (picked, unknown) = selection(gs, us.drop_last());
        match first_group(gs, us.last()@) {
            Some(i) => (picked.push(i as usize), unknown),
            None => (picked, unknown.push(us.last()@)),
        }
    }
}

fn find_group(gs: &Vec<Group>, u: &String) -> (r: Option<usize>)
    ensures
        r matches Some(i) ==> first_group(gs@, u@) == Some(i as int),
        r is None ==> first_group(gs@, u@) is None,
{
    let mut i: usize = 0;
    while i < gs.len()
        invariant
            i <= gs.len(),
            first_group(gs@.subrange(0, i as int), u@) is None,
        decreases gs.len() - i,
    {
        proof {
            assert(gs@.subrange(0, i + 1).drop_last() == gs@.subrange(0, i as int));
        }
        if gs[i].gp_info.gp_uuid == *u {
            proof {
                lemma_first_group_prefix(gs@, u@, i + 1);
            }
            return Some(i);
        }
        i = i + 1;
    }
    proof {
        assert(gs@.subrange(0, gs@.len() as int) == gs@);
    }
    None
}

proof fn lemma_first_group_prefix(gs: Seq<Group>, u: Seq<char>, n: int)
    requires
        0 <= n <= gs.len(),
        first_group(gs.subrange(0, n), u) is Some,
    ensures
        first_group(gs, u) == first_group(gs.subrange(0, n), u),
    decreases gs.len() - n,
{
    if n < gs.len() {
        assert(gs.subrange(0, n + 1).drop_last() == gs.subrange(0, n));
        lemma_first_group_prefix(gs, u, n + 1);
    } else {
        assert(gs.subrange(0, n) == gs);
    }
}

/// Selects every group when `all` holds, else the groups that `select_uuids`
/// names, in that order; the identifiers that name no group come back in the
/// second list, so that the caller can report them.
pub fn select_groups(gs: &Vec<Group>, all: bool, select_uuids: &Vec<String>) -> (r: (Vec<usize>, Vec<String>))
    ensures
        all ==> r.0@.len() == gs@.len() && (forall|i: int| 0 <= i < gs@.len() ==> #[trigger] r.0@[i] == i)
            && r.1@.len() == 0,
        !all ==> r.0@ == selection(gs@, select_uuids@).0 && r.1@.map_values(|s: String| s@) == selection(
            gs@,
            select_uuids@,
        ).1,
{
    let mut picked: Vec<usize> = Vec::new();
    let mut unknown: Vec<String> = Vec::new();
    if all {
        let mut i: usize = 0;
        while i < gs.len()
            invariant
                i <= gs.len(),
                picked@.len() == i,
                unknown@.len() == 0,
                forall|j: int| 0 <= j < i ==> #[trigger] picked@[j] == j,
            decreases gs.len() - i,
        {
            picked.push(i);
            i = i + 1;
        }
    } else {
        let mut k: usize = 0;
        while k < select_uuids.len()
            invariant
                k <= select_uuids.len(),
                picked@ == selection(gs@, select_uuids@.subrange(0, k as int)).0,
                unknown@.map_values(|s: String| s@) == selection(gs@, select_uuids@.subrange(0, k as int)).1,
            decreases select_uuids.len() - k,
        {
            proof {
                let us = select_uuids@.subrange(0, k + 1);
                assert(us.drop_last() == select_uuids@.subrange(0, k as int));
                assert(us.last() == select_uuids@[k as int]);
            }
            match find_group(gs, &select_uuids[k]) {
                Some(i) => {
                    picked.push(i);
                },
                None => {
                    let ghost before = unknown@;
                    unknown.push(select_uuids[k].clone());
                    proof {
                        assert(unknown@.map_values(|s: String| s@) == before.map_values(|s: String| s@).push(select_uuids@[k as int]@));
                    }
                },
            }
            k = k + 1;
        }
        proof {
            assert(select_uuids@.subrange(0, select_uuids@.len() as int) == select_uuids@);
        }
    }
    (picked, unknown)
}

/// One run of a script: the directory it runs in and the command line.
#[derive(Debug)]
pub struct ScriptRun {
    pub dir: String,
    pub script: String,
}

impl Group {
    /// The runs that executing `script` over this group makes: one in the cabinet
    /// root of each member, in member order.
    pub fn exec(&self, script: &String) -> (r: Vec<ScriptRun>)
        ensures
            r@.len() == self.mems@.len(),
            forall|m: int|
                0 <= m < r@.len() ==> (#[trigger] r@[m]).dir == self.mems@[m].mem_info.cab_info.abs_path
                    && r@[m].script == *script,
    {
        let mut r: Vec<ScriptRun> = Vec::new();
        let mut m: usize = 0;
        while m < self.mems.len()
            invariant
                m <= self.mems.len(),
                r@.len() == m,
                forall|j: int|
                    0 <= j < m ==> (#[trigger] r@[j]).dir == self.mems@[j].mem_info.cab_info.abs_path
                        && r@[j].script == *script,
            decreases self.mems.len() - m,
        {
            r.push(ScriptRun { dir: self.mems[m].mem_info.cab_info.abs_path.clone(), script: script.clone() });
            m = m + 1;
        }
        r
    }
}

} // verus!
