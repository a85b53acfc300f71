//! Membership declarations of a cabinet, their validation and presets.

use vstd::prelude::*;

verus! {

/// Policy for an entry that already exists at a destination.
#[derive(Clone, Copy, Debug, PartialEq, Eq, Structural)]
pub enum CoverLevel {
    /// Never overwrite.
    DontCover,
    /// Overwrite when the source has a strictly higher priority (and is stale).
    HigherCover,
    /// Any code that is not one of the above.
    Unknown,
}

/// Policy for an entry that is missing at a destination.
#[derive(Clone, Copy, Debug, PartialEq, Eq, Structural)]
pub enum SaveLevel {
    /// Never create.
    DontSave,
    /// Create when the source has a strictly higher priority.
    SaveHigher,
    /// Create when the source priority is higher or equal.
    SaveHigherEqual,
    /// Always create.
    SaveAll,
    /// Any code that is not one of the above.
    Unknown,
}

pub open spec fn cover_level_of(code: i32) -> CoverLevel {
    if code == 0 {
        CoverLevel::DontCover
    } else if code == 1 {
        CoverLevel::HigherCover
    } else {
        CoverLevel::Unknown
    }
}

pub open spec fn save_level_of(code: i32) -> SaveLevel {
    if code == 0 {
        SaveLevel::DontSave
    } else if code == 1 {
        SaveLevel::SaveHigher
    } else if code == 2 {
        SaveLevel::SaveHigherEqual
    } else if code == 3 {
        SaveLevel::SaveAll
    } else {
        SaveLevel::Unknown
    }
}

impl From<i32> for CoverLevel {
    fn from(value: i32) -> (r: CoverLevel) {
        match value {
            0 => CoverLevel::DontCover,
            1 => CoverLevel::HigherCover,
            _ => CoverLevel::Unknown,
        }
    }
}

impl vstd::std_specs::convert::FromSpecImpl<i32> for CoverLevel {
    open spec fn obeys_from_spec() -> bool {
        true
    }

    open spec fn from_spec(v: i32) -> CoverLevel {
        cover_level_of(v)
    }
}

impl From<i32> for SaveLevel {
    fn from(value: i32) -> (r: SaveLevel) {
        match value {
            0 => SaveLevel::DontSave,
            1 => SaveLevel::SaveHigher,
            2 => SaveLevel::SaveHigherEqual,
            3 => SaveLevel::SaveAll,
            _ => SaveLevel::Unknown,
        }
    }
}

impl vstd::std_specs::convert::FromSpecImpl<i32> for SaveLevel {
    open spec fn obeys_from_spec() -> bool {
        true
    }

    open spec fn from_spec(v: i32) -> SaveLevel {
        save_level_of(v)
    }
}

impl CoverLevel {
    /// The code under which this level is declared.
    pub fn code(self) -> (r: i32)
        ensures
            self != CoverLevel::Unknown ==> cover_level_of(r) == self,
            self == CoverLevel::Unknown ==> r == 2,
    {
        match self {
            CoverLevel::DontCover => 0,
            CoverLevel::HigherCover => 1,
            CoverLevel::Unknown => 2,
        }
    }
}

impl SaveLevel {
    /// The code under which this level is declared.
    pub fn code(self) -> (r: i32)
        ensures
            self != SaveLevel::Unknown ==> save_level_of(r) == self,
            self == SaveLevel::Unknown ==> r == 4,
    {
        match self {
            SaveLevel::DontSave => 0,
            SaveLevel::SaveHigher => 1,
            SaveLevel::SaveHigherEqual => 2,
            SaveLevel::SaveAll => 3,
            SaveLevel::Unknown => 4,
        }
    }
}

/// Why a cabinet's declaration was rejected.
#[derive(Clone, Copy, Debug, PartialEq, Eq, Structural)]
pub enum CabinetConfigError {
    EmptyGroupUuid,
    InvalidCoverLevel(i32),
    InvalidSaveLevel(i32),
}

#[derive(Debug)]
pub struct SrcOption {
    pub enable: bool,
}

#[derive(Debug)]
pub struct DstOption {
    pub enable: bool,
    pub cover_level: i32,
    pub save_level: i32,
    pub params: String,
}

#[derive(Debug)]
pub struct LinkOption {
    pub enable: bool,
    pub save_level: i32,
}

/// One membership declaration: the cabinet's role and priority in one group.
#[derive(Debug)]
pub struct MemberConfig {
    pub group_uuid: String,
    pub priority: i32,
    pub src_option: SrcOption,
    pub dst_option: DstOption,
    pub link_option: LinkOption,
}

/// The declaration file of a cabinet.
#[derive(Debug)]
pub struct CabinetConfig {
    pub note: Option<String>,
    pub memberships: Vec<MemberConfig>,
}

impl Clone for SrcOption {
    fn clone(&self) -> (r: Self)
        ensures
            r == *self,
    {
        SrcOption { enable: self.enable }
    }
}

impl Clone for DstOption {
    fn clone(&self) -> (r: Self)
        ensures
            r == *self,
    {
        DstOption {
            enable: self.enable,
            cover_level: self.cover_level,
            save_level: self.save_level,
            params: self.params.clone(),
        }
    }
}

impl Clone for LinkOption {
    fn clone(&self) -> (r: Self)
        ensures
            r == *self,
    {
        LinkOption { enable: self.enable, save_level: self.save_level }
    }
}

impl Clone for MemberConfig {
    fn clone(&self) -> (r: Self)
        ensures
            r == *self,
    {
        MemberConfig {
            group_uuid: self.group_uuid.clone(),
            priority: self.priority,
            src_option: self.src_option.clone(),
            dst_option: self.dst_option.clone(),
            link_option: self.link_option.clone(),
        }
    }
}

impl Clone for CabinetConfig {
    fn clone(&self) -> (r: Self)
        ensures
            r.note == self.note,
            r.memberships@ == self.memberships@,
    {
        let note = match &self.note {
            Some(n) => Some(n.clone()),
            None => None,
        };
        let mut memberships: Vec<MemberConfig> = Vec::new();
        let mut i: usize = 0;
        while i < self.memberships.len()
            invariant
                i <= self.memberships.len(),
                memberships@ == self.memberships@.subrange(0, i as int),
            decreases self.memberships.len() - i,
        {
            memberships.push(self.memberships[i].clone());
            i = i + 1;
        }
        proof {
            assert(self.memberships@.subrange(0, self.memberships@.len() as int) == self.memberships@);
        }
        CabinetConfig { note, memberships }
    }
}

/// The characters that Unicode gives the White_Space property.
pub open spec fn is_white_space(c: char) -> bool {
    ('\u{9}' <= c && c <= '\u{d}') || c == ' ' || c == '\u{85}' || c == '\u{a0}'
        || c == '\u{1680}' || ('\u{2000}' <= c && c <= '\u{200a}') || c == '\u{2028}'
        || c == '\u{2029}' || c == '\u{202f}' || c == '\u{205f}' || c == '\u{3000}'
}

/// A string that trimming leaves empty.
pub open spec fn is_blank(s: Seq<char>) -> bool {
    forall|i: int| 0 <= i < s.len() ==> is_white_space(#[trigger] s[i])
}

fn white_space(c: char) -> (r: bool)
    ensures
        r == is_white_space(c),
{
    ('\u{9}' <= c && c <= '\u{d}') || c == ' ' || c == '\u{85}' || c == '\u{a0}'
        || c == '\u{1680}' || ('\u{2000}' <= c && c <= '\u{200a}') || c == '\u{2028}'
        || c == '\u{2029}' || c == '\u{202f}' || c == '\u{205f}' || c == '\u{3000}'
}

/// Whether `s` holds nothing but white space.
pub fn blank(s: &str) -> (r: bool)
    ensures
        r == is_blank(s@),
{
    let n = s.unicode_len();
    let mut i: usize = 0;
    while i < n
        invariant
            n == s@.len(),
            i <= n,
            forall|j: int| 0 <= j < i ==> is_white_space(#[trigger] s@[j]),
        decreases n - i,
    {
        if !white_space(s.get_char(i)) {
            return false;
        }
        i = i + 1;
    }
    true
}

/// The first fault of one membership declaration, if any.
pub open spec fn member_fault(m: MemberConfig) -> Option<CabinetConfigError> {
    if is_blank(m.group_uuid@) {
        Some(CabinetConfigError::EmptyGroupUuid)
    } else if cover_level_of(m.dst_option.cover_level) == CoverLevel::Unknown {
        Some(CabinetConfigError::InvalidCoverLevel(m.dst_option.cover_level))
    } else if save_level_of(m.dst_option.save_level) == SaveLevel::Unknown {
        Some(CabinetConfigError::InvalidSaveLevel(m.dst_option.save_level))
    } else {
        None
    }
}

/// The fault of the first faulty declaration among `ms`, if any.
pub open spec fn first_fault(ms: Seq<MemberConfig>) -> Option<CabinetConfigError>
    decreases ms.len(),
{
    if ms.len() == 0 {
        None
    } else if member_fault(ms[0]) is Some {
        member_fault(ms[0])
    } else {
        first_fault(ms.drop_first())
    }
}

proof fn lemma_first_fault_step(ms: Seq<MemberConfig>, i: int)
    requires
        0 <= i < ms.len(),
        forall|j: int| 0 <= j < i ==> member_fault(#[trigger] ms[j]) is None,
    ensures
        member_fault(ms[i]) is Some ==> first_fault(ms) == member_fault(ms[i]),
        member_fault(ms[i]) is None ==> first_fault(ms) == first_fault(ms.subrange(i + 1, ms.len() as int)),
    decreases i,
{
    if i > 0 {
        let rest = ms.drop_first();
        assert forall|j: int| 0 <= j < i - 1 implies member_fault(#[trigger] rest[j]) is None by {
            assert(rest[j] == ms[j + 1]);
        }
        lemma_first_fault_step(rest, i - 1);
        assert(rest.subrange(i, rest.len() as int) == ms.subrange(i + 1, ms.len() as int));
    } else {
        assert(ms.drop_first() == ms.subrange(1, ms.len() as int));
    }
}

impl CabinetConfig {
    /// What validation returns: the fault of the first faulty membership, if any.
    pub open spec fn verify_spec(&self) -> Result<(), CabinetConfigError> {
        match first_fault(self.memberships@) {
            None => Ok(()),
            Some(e) => Err(e),
        }
    }

    /// Checks every membership in order and reports the first fault found.
    pub fn verify(&self) -> (r: Result<(), CabinetConfigError>)
        ensures
            r == self.verify_spec(),
    {
        let mut i: usize = 0;
        proof {
            assert(self.memberships@.subrange(0, self.memberships@.len() as int) == self.memberships@);
        }
        while i < self.memberships.len()
            invariant
                i <= self.memberships.len(),
                forall|j: int| 0 <= j < i ==> member_fault(#[trigger] self.memberships@[j]) is None,
                first_fault(self.memberships@) == first_fault(self.memberships@.subrange(i as int, self.memberships@.len() as int)),
            decreases self.memberships.len() - i,
        {
            let m = &self.memberships[i];
            proof {
                lemma_first_fault_step(self.memberships@, i as int);
            }
            if blank(m.group_uuid.as_str()) {
                return Err(CabinetConfigError::EmptyGroupUuid);
            }
            if let CoverLevel::Unknown = CoverLevel::from(m.dst_option.cover_level) {
                return Err(CabinetConfigError::InvalidCoverLevel(m.dst_option.cover_level));
            }
            if let SaveLevel::Unknown = SaveLevel::from(m.dst_option.save_level) {
                return Err(CabinetConfigError::InvalidSaveLevel(m.dst_option.save_level));
            }
            i = i + 1;
        }
        proof {
            assert(self.memberships@.subrange(i as int, self.memberships@.len() as int).len() == 0);
        }
        Ok(())
    }
}

/// The "gate" profile: priority 0, neither source nor destination, links saved always.
pub open spec fn gate_of(m: MemberConfig) -> MemberConfig {
    MemberConfig {
        priority: 0,
        src_option: SrcOption { enable: false },
        dst_option: DstOption { enable: false, ..m.dst_option },
        link_option: LinkOption { enable: true, save_level: 3 },
        ..m
    }
}

/// The shape shared by the "main" and "mirror" profiles, at the given priority.
pub open spec fn replica_of(m: MemberConfig, priority: i32) -> MemberConfig {
    MemberConfig {
        priority: priority,
        src_option: SrcOption { enable: true },
        dst_option: DstOption { enable: true, cover_level: 1, save_level: 2, ..m.dst_option },
        link_option: LinkOption { enable: false, ..m.link_option },
        ..m
    }
}

/// The "main" profile: priority 3, source and destination, higher cover, higher-or-equal save.
pub open spec fn main_of(m: MemberConfig) -> MemberConfig {
    replica_of(m, 3)
}

/// The "mirror" profile: as "main", at priority 1.
pub open spec fn mirror_of(m: MemberConfig) -> MemberConfig {
    replica_of(m, 1)
}

/// A hyphenated, lower-case UUID: 36 characters, hyphens at 8, 13, 18 and 23,
/// hexadecimal digits elsewhere.
pub open spec fn is_hyphenated_uuid(s: Seq<char>) -> bool {
    &&& s.len() == 36
    &&& forall|i: int|
        0 <= i < 36 ==> if i == 8 || i == 13 || i == 18 || i == 23 {
            #[trigger] s[i] == '-'
        } else {
            ('0' <= s[i] && s[i] <= '9') || ('a' <= s[i] && s[i] <= 'f')
        }
}

/// Relies on uuid::Uuid::now_v7 and its Display impl, which writes the
/// hyphenated lower-case form. The value itself depends on the clock and on chance.
#[verifier::external_body]
fn new_group_uuid() -> (r: String)
    ensures
        is_hyphenated_uuid(r@),
{
    uuid::Uuid::now_v7().to_string()
}

/// The declaration written into a freshly initialised cabinet.
pub fn default_cabinet_config() -> (r: CabinetConfig)
    ensures
        r.note is Some,
        r.note.unwrap()@ == "New Cabinet"@,
        r.memberships@.len() == 0,
{
    CabinetConfig { note: Some(String::from_str("New Cabinet")), memberships: Vec::new() }
}

/// A membership of a new group: a fresh time-ordered identifier, priority 0,
/// every role disabled and every level at its most conservative value.
pub fn default_membership() -> (r: MemberConfig)
    ensures
        is_hyphenated_uuid(r.group_uuid@),
        r.priority == 0,
        !r.src_option.enable,
        !r.dst_option.enable,
        r.dst_option.cover_level == 0,
        r.dst_option.save_level == 0,
        r.dst_option.params@.len() == 0,
        !r.link_option.enable,
        r.link_option.save_level == 0,
{
    MemberConfig {
        group_uuid: new_group_uuid(),
        priority: 0,
        src_option: SrcOption { enable: false },
        dst_option: DstOption {
            enable: false,
            cover_level: CoverLevel::DontCover.code(),
            save_level: SaveLevel::DontSave.code(),
            params: String::new(),
        },
        link_option: LinkOption { enable: false, save_level: SaveLevel::DontSave.code() },
    }
}

impl CabinetConfig {
    /// Rewrites every membership to the "gate" profile.
    pub fn to_gate(&mut self)
        ensures
            final(self).note == old(self).note,
            final(self).memberships@ == old(self).memberships@.map_values(|m: MemberConfig| gate_of(m)),
    {
        let ghost before = self.memberships@;
        let mut i: usize = 0;
        while i < self.memberships.len()
            invariant
                self.memberships@.len() == before.len(),
                i <= before.len(),
                forall|j: int| 0 <= j < i ==> #[trigger] self.memberships@[j] == gate_of(before[j]),
                forall|j: int| i <= j < before.len() ==> #[trigger] self.memberships@[j] == before[j],
                self.note == old(self).note,
                before == old(self).memberships@,
            decreases before.len() - i,
        {
            let mut m = self.memberships[i].clone();
            m.priority = 0;
            m.src_option.enable = false;
            m.dst_option.enable = false;
            m.link_option.enable = true;
            m.link_option.save_level = SaveLevel::SaveAll.code();
            self.memberships.set(i, m);
            i = i + 1;
        }
        proof {
            assert(self.memberships@ =~= before.map_values(|m: MemberConfig| gate_of(m)));
        }
    }

    /// Rewrites every membership to the "main" profile.
    pub fn to_main(&mut self)
        ensures
            final(self).note == old(self).note,
            final(self).memberships@ == old(self).memberships@.map_values(|m: MemberConfig| main_of(m)),
    {
        self.to_replica(3);
    }

    /// Rewrites every membership to the "mirror" profile.
    pub fn to_mirror(&mut self)
        ensures
            final(self).note == old(self).note,
            final(self).memberships@ == old(self).memberships@.map_values(|m: MemberConfig| mirror_of(m)),
    {
        self.to_replica(1);
    }

    fn to_replica(&mut self, priority: i32)
        ensures
            final(self).note == old(self).note,
            final(self).memberships@ == old(self).memberships@.map_values(
                |m: MemberConfig| replica_of(m, priority),
            ),
    {
        let ghost before = self.memberships@;
        let mut i: usize = 0;
        while i < self.memberships.len()
            invariant
                self.memberships@.len() == before.len(),
                i <= before.len(),
                forall|j: int| 0 <= j < i ==> #[trigger] self.memberships@[j] == replica_of(before[j], priority),
                forall|j: int| i <= j < before.len() ==> #[trigger] self.memberships@[j] == before[j],
                self.note == old(self).note,
                before == old(self).memberships@,
            decreases before.len() - i,
        {
            let mut m = self.memberships[i].clone();
            m.priority = priority;
            m.src_option.enable = true;
            m.dst_option.enable = true;
            m.link_option.enable = false;
            m.dst_option.cover_level = CoverLevel::HigherCover.code();
            m.dst_option.save_level = SaveLevel::SaveHigherEqual.code();
            self.memberships.set(i, m);
            i = i + 1;
        }
        proof {
            assert(self.memberships@ =~= before.map_values(|m: MemberConfig| replica_of(m, priority)));
        }
    }
}

/// Every field of `m` but the group identifier holds its default value.
pub open spec fn has_default_roles(m: MemberConfig) -> bool {
    &&& m.priority == 0
    &&& !m.src_option.enable
    &&& !m.dst_option.enable
    &&& m.dst_option.cover_level == 0
    &&& m.dst_option.save_level == 0
    &&& m.dst_option.params@.len() == 0
    &&& !m.link_option.enable
    &&& m.link_option.save_level == 0
}

/// The groups a cabinet joins; none given means a new group.
#[derive(Debug)]
pub struct CabinetJoinArgs {
    pub group_uuids: Vec<String>,
}

impl CabinetConfig {
    /// Adds one default membership per identifier of `args`, in order; with no
    /// identifier, one default membership of a new group.
    pub fn join(&mut self, args: &CabinetJoinArgs)
        requires
            old(self).memberships@.len() + args.group_uuids@.len() + 1 <= usize::MAX,
        ensures
            final(self).note == old(self).note,
            final(self).memberships@.subrange(0, old(self).memberships@.len() as int) == old(self).memberships@,
            args.group_uuids@.len() > 0 ==> final(self).memberships@.len() == old(self).memberships@.len()
                + args.group_uuids@.len(),
            forall|i: int|
                0 <= i < args.group_uuids@.len() ==> has_default_roles(
                    #[trigger] final(self).memberships@[old(self).memberships@.len() + i],
                ) && final(self).memberships@[old(self).memberships@.len() + i].group_uuid == args.group_uuids@[i],
            args.group_uuids@.len() == 0 ==> final(self).memberships@.len() == old(self).memberships@.len() + 1
                && has_default_roles(final(self).memberships@.last())
                && is_hyphenated_uuid(final(self).memberships@.last().group_uuid@),
    {
        let ghost before = self.memberships@;
        let n = self.memberships.len();
        let mut i: usize = 0;
        while i < args.group_uuids.len()
            invariant
                n == before.len(),
                n + args.group_uuids@.len() + 1 <= usize::MAX,
                i <= args.group_uuids.len(),
                self.note == old(self).note,
                before == old(self).memberships@,
                self.memberships@.len() == n + i,
                self.memberships@.subrange(0, n as int) == before,
                forall|j: int|
                    0 <= j < i ==> has_default_roles(#[trigger] self.memberships@[n + j])
                        && self.memberships@[n + j].group_uuid == args.group_uuids@[j],
            decreases args.group_uuids.len() - i,
        {
            let mut m = default_membership();
            m.group_uuid = args.group_uuids[i].clone();
            let ghost prev = self.memberships@;
            self.memberships.push(m);
            proof {
                assert(self.memberships@.subrange(0, n as int) == prev.subrange(0, n as int));
                assert forall|j: int| 0 <= j < i + 1 implies has_default_roles(#[trigger] self.memberships@[n + j])
                    && self.memberships@[n + j].group_uuid == args.group_uuids@[j] by {
                    if j < i {
                        assert(self.memberships@[n + j] == prev[n + j]);
                    }
                }
            }
            i = i + 1;
        }
        if args.group_uuids.len() == 0 {
            let m = default_membership();
            self.memberships.push(m);
            proof {
                assert(self.memberships@.subrange(0, n as int) == before);
            }
        }
    }
}

} // verus!
