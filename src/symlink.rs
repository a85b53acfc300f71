//! Crash-safe replacement of a symbolic link: build the link at a temporary
//! sibling path, clear the final path, then rename the temporary link into place.

use vstd::prelude::*;

verus! {

/// What `exists` and the link's own metadata report at the final path before the update.
#[derive(Clone, Copy, Debug, PartialEq, Eq, Structural)]
pub enum PriorEntry {
    /// Nothing that resolves is there.
    Absent,
    Symlink,
    Directory,
    /// A regular file or another entry that a rename replaces.
    Other,
}

/// One filesystem operation of a link update.
#[derive(Clone, Copy, Debug, PartialEq, Eq, Structural)]
pub enum LinkStep {
    /// Create the new symbolic link at the temporary path.
    CreateTemp,
    /// Unlink the symbolic link at the final path.
    RemoveSymlink,
    /// Remove the directory at the final path, recursively.
    RemoveDirAll,
    /// Rename the temporary path onto the final path, in one atomic step.
    RenameTemp,
}

/// The operations that replace whatever `prior` describes with the new link.
pub open spec fn link_steps(prior: PriorEntry) -> Seq<LinkStep> {
    match prior {
        PriorEntry::Symlink => seq![LinkStep::CreateTemp, LinkStep::RemoveSymlink, LinkStep::RenameTemp],
        PriorEntry::Directory => seq![LinkStep::CreateTemp, LinkStep::RemoveDirAll, LinkStep::RenameTemp],
        _ => seq![LinkStep::CreateTemp, LinkStep::RenameTemp],
    }
}

/// The operations of an update of the link at a path where `prior` was observed.
pub fn symlink_steps(prior: PriorEntry) -> (r: Vec<LinkStep>)
    ensures
        r@ == link_steps(prior),
{
    let mut r: Vec<LinkStep> = Vec::new();
    r.push(LinkStep::CreateTemp);
    match prior {
        PriorEntry::Symlink => r.push(LinkStep::RemoveSymlink),
        PriorEntry::Directory => r.push(LinkStep::RemoveDirAll),
        _ => {},
    }
    r.push(LinkStep::RenameTemp);
    proof {
        assert(r@ =~= link_steps(prior));
    }
    r
}

/// What an observer can find at a path during an update.
pub enum Slot {
    Empty,
    /// The entry that was there before the update.
    Prior,
    /// The new, complete link.
    NewLink,
}

/// The final path and the temporary path, as an observer sees them.
pub struct LinkPaths {
    pub link: Slot,
    pub tmp: Slot,
}

pub open spec fn initial_paths(prior: PriorEntry) -> LinkPaths {
    LinkPaths { link: if prior == PriorEntry::Absent { Slot::Empty } else { Slot::Prior }, tmp: Slot::Empty }
}

pub open spec fn apply_step(p: LinkPaths, step: LinkStep) -> LinkPaths {
    match step {
        LinkStep::CreateTemp => LinkPaths { tmp: Slot::NewLink, ..p },
        LinkStep::RemoveSymlink => LinkPaths { link: Slot::Empty, ..p },
        LinkStep::RemoveDirAll => LinkPaths { link: Slot::Empty, ..p },
        LinkStep::RenameTemp => LinkPaths { link: p.tmp, tmp: Slot::Empty },
    }
}

/// The paths after the steps are applied in order; a prefix is a run that stopped early.
pub open spec fn run_steps(p: LinkPaths, steps: Seq<LinkStep>) -> LinkPaths
    decreases steps.len(),
{
    if steps.len() == 0 {
        p
    } else {
        apply_step(run_steps(p, steps.drop_last()), steps.last())
    }
}

/// A completed update leaves the new link at the final path and nothing at the temporary one.
pub proof fn lemma_link_update_completes(prior: PriorEntry)
    ensures
        run_steps(initial_paths(prior), link_steps(prior)) == (LinkPaths { link: Slot::NewLink, tmp: Slot::Empty }),
{
    reveal_with_fuel(run_steps, 4);
    let s = link_steps(prior);
    if s.len() == 3 {
        assert(s.drop_last() =~= seq![s[0], s[1]]);
        assert(s.drop_last().drop_last() =~= seq![s[0]]);
        assert(s.drop_last().drop_last().drop_last() =~= Seq::<LinkStep>::empty());
    } else {
        assert(s.drop_last() =~= seq![s[0]]);
        assert(s.drop_last().drop_last() =~= Seq::<LinkStep>::empty());
    }
}

/// An update interrupted after any number of steps leaves at the final path either
/// what was there before or the complete new link, never nothing and never a partial
/// link, when the final path held no link or directory to clear first.
pub proof fn lemma_link_update_atomic(prior: PriorEntry, k: int)
    requires
        prior == PriorEntry::Absent || prior == PriorEntry::Other,
        0 <= k <= link_steps(prior).len(),
    ensures
        run_steps(initial_paths(prior), link_steps(prior).take(k)).link == initial_paths(prior).link
            || run_steps(initial_paths(prior), link_steps(prior).take(k)).link == Slot::NewLink,
{
    reveal_with_fuel(run_steps, 3);
    let s = link_steps(prior);
    assert(s.take(0) =~= Seq::<LinkStep>::empty());
    assert(s.take(1) =~= seq![LinkStep::CreateTemp]);
    assert(s.take(1).drop_last() =~= Seq::<LinkStep>::empty());
    assert(s.take(2) =~= seq![LinkStep::CreateTemp, LinkStep::RenameTemp]);
    assert(s.take(2).drop_last() =~= seq![LinkStep::CreateTemp]);
    assert(seq![LinkStep::CreateTemp].drop_last() =~= Seq::<LinkStep>::empty());
}

/// The name of the temporary sibling of a link named `file_name` (`link` when the
/// name is missing), unique by process id and time in milliseconds.
pub open spec fn temp_name_of(file_name: Option<Seq<char>>, pid: u32, millis: u128) -> Seq<char> {
    let base = match file_name {
        Some(n) => n,
        None => "link"@,
    };
    base + "_"@ + decimal(pid as nat) + "_"@ + decimal(millis as nat)
}

pub open spec fn digit(d: nat) -> char {
    if d == 0 { '0' } else if d == 1 { '1' } else if d == 2 { '2' } else if d == 3 { '3' }
    else if d == 4 { '4' } else if d == 5 { '5' } else if d == 6 { '6' } else if d == 7 { '7' }
    else if d == 8 { '8' } else { '9' }
}

/// Decimal digits of `n`, most significant first, without leading zeros.
pub open spec fn decimal(n: nat) -> Seq<char>
    decreases n,
{
    if n < 10 {
        seq![digit(n)]
    } else {
        decimal(n / 10).push(digit(n % 10))
    }
}

/// Relies on the Display impl of u128 (through to_string): plain decimal digits.
#[verifier::external_body]
fn decimal_string(n: u128) -> (r: String)
    ensures
        r@ == decimal(n as nat),
{
    n.to_string()
}

/// The temporary sibling name used while a link is replaced.
pub fn temp_link_name(file_name: Option<&str>, pid: u32, millis: u128) -> (r: String)
    ensures
        r@ == temp_name_of(
            match file_name {
                Some(n) => Some(n@),
                None => None,
            },
            pid,
            millis,
        ),
{
    let mut r = match file_name {
        Some(n) => String::from_str(n),
        None => String::from_str("link"),
    };
    proof {
        reveal_strlit("link");
        reveal_strlit("_");
    }
    r.append("_");
    let p = decimal_string(pid as u128);
    r.append(p.as_str());
    r.append("_");
    let m = decimal_string(millis);
    r.append(m.as_str());
    r
}

} // verus!
