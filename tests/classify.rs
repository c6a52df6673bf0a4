use btrfs::types::{
    GroupProfile, GroupType, BLOCK_GROUP_DATA, BLOCK_GROUP_DUP, BLOCK_GROUP_METADATA,
    BLOCK_GROUP_RAID0, BLOCK_GROUP_RAID1, BLOCK_GROUP_RAID10, BLOCK_GROUP_RAID5,
    BLOCK_GROUP_RAID6, BLOCK_GROUP_SYSTEM,
};

#[test]
fn group_type_single_bits() {
    assert_eq!(GroupType::from(BLOCK_GROUP_DATA), GroupType::Data);
    assert_eq!(GroupType::from(BLOCK_GROUP_SYSTEM), GroupType::System);
    assert_eq!(GroupType::from(BLOCK_GROUP_METADATA), GroupType::MetaData);
}

#[test]
fn group_type_mixed_and_reserve() {
    assert_eq!(GroupType::from(0x1 | 0x4), GroupType::DataAndMetaData);
    assert_eq!(GroupType::from(0x3_0000_0000_0000), GroupType::GlobalReserve);
    assert_eq!(GroupType::from(0x1_0000_0000_0000), GroupType::Unknown);
}

#[test]
fn group_type_data_and_system_is_unknown() {
    assert_eq!(GroupType::from(BLOCK_GROUP_DATA | BLOCK_GROUP_SYSTEM), GroupType::Unknown);
    assert_eq!(GroupType::from(0), GroupType::Unknown);
}

#[test]
fn group_type_ignores_profile_bits() {
    assert_eq!(GroupType::from(BLOCK_GROUP_DATA | BLOCK_GROUP_RAID1), GroupType::Data);
    assert_eq!(GroupType::from(BLOCK_GROUP_METADATA | BLOCK_GROUP_DUP), GroupType::MetaData);
}

#[test]
fn group_profile_from_flags() {
    assert_eq!(GroupProfile::from(0), GroupProfile::Single);
    assert_eq!(GroupProfile::from(BLOCK_GROUP_DATA), GroupProfile::Single);
    assert_eq!(GroupProfile::from(BLOCK_GROUP_RAID0), GroupProfile::Raid0);
    assert_eq!(GroupProfile::from(BLOCK_GROUP_RAID1), GroupProfile::Raid1);
    assert_eq!(GroupProfile::from(BLOCK_GROUP_RAID5), GroupProfile::Raid5);
    assert_eq!(GroupProfile::from(BLOCK_GROUP_RAID6), GroupProfile::Raid6);
    assert_eq!(GroupProfile::from(BLOCK_GROUP_DUP), GroupProfile::Dup);
    assert_eq!(GroupProfile::from(BLOCK_GROUP_RAID10), GroupProfile::Raid10);
    assert_eq!(GroupProfile::from(BLOCK_GROUP_DATA | BLOCK_GROUP_RAID10), GroupProfile::Raid10);
}

#[test]
fn group_profile_unused_pattern_is_unknown() {
    assert_eq!(GroupProfile::from(BLOCK_GROUP_RAID0 | BLOCK_GROUP_RAID1), GroupProfile::Unknown);
    assert_eq!(GroupProfile::from(0x1f8), GroupProfile::Unknown);
}

#[test]
fn group_profile_from_string_names() {
    assert_eq!(GroupProfile::from_string("single"), Some(GroupProfile::Single));
    assert_eq!(GroupProfile::from_string("raid0"), Some(GroupProfile::Raid0));
    assert_eq!(GroupProfile::from_string("raid1"), Some(GroupProfile::Raid1));
    assert_eq!(GroupProfile::from_string("raid5"), Some(GroupProfile::Raid5));
    assert_eq!(GroupProfile::from_string("raid6"), Some(GroupProfile::Raid6));
    assert_eq!(GroupProfile::from_string("dup"), Some(GroupProfile::Dup));
    assert_eq!(GroupProfile::from_string("raid10"), Some(GroupProfile::Raid10));
    assert_eq!(GroupProfile::from_string("unknown"), Some(GroupProfile::Unknown));
}

#[test]
fn group_profile_from_string_rejects_other_text() {
    assert_eq!(GroupProfile::from_string("RAID0"), None);
    assert_eq!(GroupProfile::from_string(""), None);
    assert_eq!(GroupProfile::from_string("raid"), None);
    assert_eq!(GroupProfile::from_string("raid100"), None);
    assert_eq!(GroupProfile::from_string("single "), None);
    assert_eq!(GroupProfile::from_string("dúp"), None);
}
