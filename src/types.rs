//! Block group classes and profiles, and the snapshots of space, filesystem,
//! device and deduplication state built around them.
use vstd::prelude::*;
use vstd::string::StringSliceAdditionalSpecFns;

verus! {

/// Block group usage bit: file data.
pub const BLOCK_GROUP_DATA: u64 = 0x1;

/// Block group usage bit: system chunks (the chunk tree).
pub const BLOCK_GROUP_SYSTEM: u64 = 0x2;

/// Block group usage bit: tree metadata.
pub const BLOCK_GROUP_METADATA: u64 = 0x4;

/// A mixed block group holding both data and metadata: the data bit and
/// the metadata bit together.
pub const BLOCK_GROUP_DATA_AND_METADATA: u64 = 0x5;

/// Space-info bits that mark the global reserve: the "single allocation"
/// bit (1 << 48) together with the global-reserve bit (1 << 49).
pub const BLOCK_GROUP_RESERVED: u64 = 0x3_0000_0000_0000;

/// The usage bits together with the reserve bits.
pub const BLOCK_GROUP_TYPE_AND_RESERVED_MASK: u64 = 0x3_0000_0000_0007;

/// Profile bit: striping without redundancy.
pub const BLOCK_GROUP_RAID0: u64 = 0x8;

/// Profile bit: mirroring over two devices.
pub const BLOCK_GROUP_RAID1: u64 = 0x10;

/// Profile bit: two copies on one device.
pub const BLOCK_GROUP_DUP: u64 = 0x20;

/// Profile bit: striped mirrors.
pub const BLOCK_GROUP_RAID10: u64 = 0x40;

/// Profile bit: striping with one parity block.
pub const BLOCK_GROUP_RAID5: u64 = 0x80;

/// Profile bit: striping with two parity blocks.
pub const BLOCK_GROUP_RAID6: u64 = 0x100;

/// All profile bits.
pub const BLOCK_GROUP_PROFILE_MASK: u64 = 0x1f8;

#[derive(Debug, PartialEq, Eq, Structural)]
pub enum GroupType {
    Data,
    System,
    MetaData,
    DataAndMetaData,
    GlobalReserve,
    Unknown,
}

/// The usage class that a flag word denotes.
pub open spec fn group_type_of(flags: u64) -> GroupType {
    let m = flags & BLOCK_GROUP_TYPE_AND_RESERVED_MASK;
    if m == BLOCK_GROUP_DATA {
        GroupType::Data
    } else if m == BLOCK_GROUP_SYSTEM {
        GroupType::System
    } else if m == BLOCK_GROUP_METADATA {
        GroupType::MetaData
    } else if m == BLOCK_GROUP_DATA_AND_METADATA {
        GroupType::DataAndMetaData
    } else if m == BLOCK_GROUP_RESERVED {
        GroupType::GlobalReserve
    } else {
        GroupType::Unknown
    }
}

impl From<u64> for GroupType {
    fn from(flags: u64) -> (r: GroupType)
        ensures
            r == group_type_of(flags),
    {
        let m = flags & BLOCK_GROUP_TYPE_AND_RESERVED_MASK;
        if m == BLOCK_GROUP_DATA {
            GroupType::Data
        } else if m == BLOCK_GROUP_SYSTEM {
            GroupType::System
        } else if m == BLOCK_GROUP_METADATA {
            GroupType::MetaData
        } else if m == BLOCK_GROUP_DATA_AND_METADATA {
            GroupType::DataAndMetaData
        } else if m == BLOCK_GROUP_RESERVED {
            GroupType::GlobalReserve
        } else {
            GroupType::Unknown
        }
    }
}

impl vstd::std_specs::convert::FromSpecImpl<u64> for GroupType {
    open spec fn obeys_from_spec() -> bool {
        true
    }

    open spec fn from_spec(flags: u64) -> GroupType {
        group_type_of(flags)
    }
}

#[derive(Debug, PartialEq, Eq, Structural)]
pub enum GroupProfile {
    Single,
    Raid0,
    Raid1,
    Raid5,
    Raid6,
    Dup,
    Raid10,
    Unknown,
}

/// The redundancy class that a flag word denotes: no profile bit at all
/// means `Single`.
pub open spec fn group_profile_of(flags: u64) -> GroupProfile {
    let m = flags & BLOCK_GROUP_PROFILE_MASK;
    if m == 0 {
        GroupProfile::Single
    } else if m == BLOCK_GROUP_RAID0 {
        GroupProfile::Raid0
    } else if m == BLOCK_GROUP_RAID1 {
        GroupProfile::Raid1
    } else if m == BLOCK_GROUP_RAID5 {
        GroupProfile::Raid5
    } else if m == BLOCK_GROUP_RAID6 {
        GroupProfile::Raid6
    } else if m == BLOCK_GROUP_DUP {
        GroupProfile::Dup
    } else if m == BLOCK_GROUP_RAID10 {
        GroupProfile::Raid10
    } else {
        GroupProfile::Unknown
    }
}

/// The canonical configuration name of a profile.
pub open spec fn profile_name(p: GroupProfile) -> Seq<char> {
    match p {
        GroupProfile::Single => "single"@,
        GroupProfile::Raid0 => "raid0"@,
        GroupProfile::Raid1 => "raid1"@,
        GroupProfile::Raid5 => "raid5"@,
        GroupProfile::Raid6 => "raid6"@,
        GroupProfile::Dup => "dup"@,
        GroupProfile::Raid10 => "raid10"@,
        GroupProfile::Unknown => "unknown"@,
    }
}

/// The profile whose canonical name is `s`, if any.
pub open spec fn profile_named(s: Seq<char>) -> Option<GroupProfile> {
    if s == "single"@ {
        Some(GroupProfile::Single)
    } else if s == "raid0"@ {
        Some(GroupProfile::Raid0)
    } else if s == "raid1"@ {
        Some(GroupProfile::Raid1)
    } else if s == "raid5"@ {
        Some(GroupProfile::Raid5)
    } else if s == "raid6"@ {
        Some(GroupProfile::Raid6)
    } else if s == "dup"@ {
        Some(GroupProfile::Dup)
    } else if s == "raid10"@ {
        Some(GroupProfile::Raid10)
    } else if s == "unknown"@ {
        Some(GroupProfile::Unknown)
    } else {
        None
    }
}

/// Whether two strings hold the same text, compared by their UTF-8 bytes.
fn same_text(a: &str, b: &str) -> (r: bool)
    ensures
        r == (a@ == b@),
{
    let x = a.as_bytes();
    let y = b.as_bytes();
    proof {
        broadcast use vstd::utf8::encode_utf8_decode_utf8;
    }
    if x.len() != y.len() {
        proof {
            if a@ == b@ {
                assert(x@ == y@);
            }
        }
        return false;
    }
    let mut i: usize = 0;
    while i < x.len()
        invariant
            x@ == a.spec_bytes(),
            y@ == b.spec_bytes(),
            x@.len() == y@.len(),
            i <= x@.len(),
            forall|k: int| 0 <= k < i ==> x@[k] == y@[k],
        decreases x@.len() - i,
    {
        if x[i] != y[i] {
            proof {
                if a@ == b@ {
                    assert(x@ == y@);
                }
            }
            return false;
        }
        i = i + 1;
    }
    proof {
        assert(x@ =~= y@);
        assert(vstd::utf8::decode_utf8(a.spec_bytes()) == vstd::utf8::decode_utf8(b.spec_bytes()));
    }
    true
}

impl GroupProfile {
    /// Looks up a profile by its canonical lower-case name; the match is
    /// case-sensitive and any other text gives `None`.
    pub fn from_string(string_value: &str) -> (r: Option<GroupProfile>)
        ensures
            r == profile_named(string_value@),
    {
        proof {
            reveal_strlit("single");
            reveal_strlit("raid0");
            reveal_strlit("raid1");
            reveal_strlit("raid5");
            reveal_strlit("raid6");
            reveal_strlit("dup");
            reveal_strlit("raid10");
            reveal_strlit("unknown");
        }
        if same_text(string_value, "single") {
            Some(GroupProfile::Single)
        } else if same_text(string_value, "raid0") {
            Some(GroupProfile::Raid0)
        } else if same_text(string_value, "raid1") {
            Some(GroupProfile::Raid1)
        } else if same_text(string_value, "raid5") {
            Some(GroupProfile::Raid5)
        } else if same_text(string_value, "raid6") {
            Some(GroupProfile::Raid6)
        } else if same_text(string_value, "dup") {
            Some(GroupProfile::Dup)
        } else if same_text(string_value, "raid10") {
            Some(GroupProfile::Raid10)
        } else if same_text(string_value, "unknown") {
            Some(GroupProfile::Unknown)
        } else {
            None
        }
    }
}

impl From<u64> for GroupProfile {
    fn from(flags: u64) -> (r: GroupProfile)
        ensures
            r == group_profile_of(flags),
    {
        let m = flags & BLOCK_GROUP_PROFILE_MASK;
        if m == 0 {
            GroupProfile::Single
        } else if m == BLOCK_GROUP_RAID0 {
            GroupProfile::Raid0
        } else if m == BLOCK_GROUP_RAID1 {
            GroupProfile::Raid1
        } else if m == BLOCK_GROUP_RAID5 {
            GroupProfile::Raid5
        } else if m == BLOCK_GROUP_RAID6 {
            GroupProfile::Raid6
        } else if m == BLOCK_GROUP_DUP {
            GroupProfile::Dup
        } else if m == BLOCK_GROUP_RAID10 {
            GroupProfile::Raid10
        } else {
            GroupProfile::Unknown
        }
    }
}

impl vstd::std_specs::convert::FromSpecImpl<u64> for GroupProfile {
    open spec fn obeys_from_spec() -> bool {
        true
    }

    open spec fn from_spec(flags: u64) -> GroupProfile {
        group_profile_of(flags)
    }
}

/// Every canonical name is looked up as the profile it names, and a name is
/// found only if it is one of them.
pub proof fn lemma_profile_names_round_trip(p: GroupProfile, s: Seq<char>)
    ensures
        profile_named(profile_name(p)) == Some(p),
        profile_named(s) is Some ==> profile_name(profile_named(s).unwrap()) == s,
{
    reveal_strlit("single");
    reveal_strlit("raid0");
    reveal_strlit("raid1");
    reveal_strlit("raid5");
    reveal_strlit("raid6");
    reveal_strlit("dup");
    reveal_strlit("raid10");
    reveal_strlit("unknown");
    assert("single"@.len() == 6 && "raid10"@.len() == 6 && "dup"@.len() == 3);
    assert("unknown"@.len() == 7 && "raid0"@[4] == '0' && "raid1"@[4] == '1');
    assert("raid5"@[4] == '5' && "raid6"@[4] == '6' && "single"@[0] == 's');
    assert("raid10"@[0] == 'r');
}

/// Without any profile bit a flag word is `Single`, the raid10 bit alone is
/// `Raid10`, and a profile bit pattern that names no class is `Unknown`.
pub proof fn lemma_profile_bit_patterns(flags: u64)
    ensures
        flags & BLOCK_GROUP_PROFILE_MASK == 0 ==> group_profile_of(flags) == GroupProfile::Single,
        group_profile_of(0) == GroupProfile::Single,
        group_profile_of(BLOCK_GROUP_RAID10) == GroupProfile::Raid10,
        group_profile_of(BLOCK_GROUP_RAID0 | BLOCK_GROUP_RAID1) == GroupProfile::Unknown,
{
    assert(0u64 & 0x1f8u64 == 0) by (bit_vector);
    assert(0x40u64 & 0x1f8u64 == 0x40u64) by (bit_vector);
    assert(0x8u64 | 0x10u64 == 0x18u64) by (bit_vector);
    assert(0x18u64 & 0x1f8u64 == 0x18u64) by (bit_vector);
}

/// Declares `uuid::Uuid` so that the info types can carry one; nothing is
/// assumed of its contents, which stay opaque here.
#[verifier::external_type_specification]
#[verifier::external_body]
pub struct ExUuid(uuid::Uuid);

/// Space usage of one kind of block group.
#[derive(Debug, PartialEq, Eq)]
pub struct SpaceInfo {
    pub group_type: GroupType,
    pub group_profile: GroupProfile,
    pub total_bytes: u64,
    pub used_bytes: u64,
}

/// Identity of a mounted filesystem.
#[derive(Debug, PartialEq, Eq)]
pub struct FilesystemInfo {
    pub max_id: u64,
    pub num_devices: u64,
    pub filesystem_id: uuid::Uuid,
}

/// One member device of a filesystem. The path is kept as the raw bytes
/// that the operating system gave, which need not be UTF-8.
#[derive(Debug, PartialEq, Eq)]
pub struct DeviceInfo {
    pub device_id: u64,
    pub uuid: uuid::Uuid,
    pub bytes_used: u64,
    pub total_bytes: u64,
    pub path: Vec<u8>,
}

/// A deduplication request: a source range and the destinations to compare
/// it with.
#[derive(Debug, PartialEq, Eq)]
pub struct DedupeRange {
    pub src_offset: u64,
    pub src_length: u64,
    pub dest_infos: Vec<DedupeRangeDestInfo>,
}

#[derive(Debug, PartialEq, Eq, Structural)]
pub enum DedupeRangeStatus {
    Same,
    Differs,
}

/// One destination of a deduplication request and, once the request has
/// run, its outcome.
#[derive(Debug, PartialEq, Eq)]
pub struct DedupeRangeDestInfo {
    pub dest_fd: i64,
    pub dest_offset: u64,
    pub bytes_deduped: u64,
    pub status: DedupeRangeStatus,
}

} // verus!
