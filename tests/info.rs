use btrfs::types::{
    DedupeRange, DedupeRangeDestInfo, DedupeRangeStatus, DeviceInfo, FilesystemInfo,
    GroupProfile, GroupType, SpaceInfo,
};

#[test]
fn info_values_compare_by_fields() {
    let s = SpaceInfo { group_type: GroupType::Data, group_profile: GroupProfile::Raid1, total_bytes: 10, used_bytes: 4 };
    assert_eq!(s, SpaceInfo { group_type: GroupType::Data, group_profile: GroupProfile::Raid1, total_bytes: 10, used_bytes: 4 });
    let f = FilesystemInfo { max_id: 2, num_devices: 2, filesystem_id: uuid::Uuid::nil() };
    assert_eq!(f.filesystem_id, uuid::Uuid::nil());
    let d = DeviceInfo { device_id: 1, uuid: uuid::Uuid::nil(), bytes_used: 0, total_bytes: 1, path: b"/dev/sda1".to_vec() };
    assert_eq!(d.path, b"/dev/sda1".to_vec());
    let r = DedupeRange {
        src_offset: 0,
        src_length: 4096,
        dest_infos: vec![DedupeRangeDestInfo { dest_fd: 3, dest_offset: 0, bytes_deduped: 4096, status: DedupeRangeStatus::Same }],
    };
    assert_eq!(r.dest_infos[0].status, DedupeRangeStatus::Same);
    assert_ne!(r.dest_infos[0].status, DedupeRangeStatus::Differs);
}
