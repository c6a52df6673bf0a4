use btrfs::item::{
    ChunkItem, ChunkStripe, DevItem, DirEntry, ExtentData, ExtentDataBody, ExtentItem,
    ExtentRef, InodeItem, InternalItem, InvalidReason, Key, Timestamp, CHUNK_ITEM_KEY,
    DEV_ITEM_KEY, DIR_INDEX_KEY, DIR_ITEM_KEY, EXTENT_DATA_KEY, EXTENT_ITEM_KEY, INODE_ITEM_KEY,
};
use btrfs::leaf::{decode, encode, EncodeError, InvalidItem, LeafItem, UnknownItem};

fn key(t: u8) -> Key {
    Key { object_id: 256, item_type: t, offset: 0 }
}

fn round_trip(t: u8, v: LeafItem) {
    let bytes = encode(&v).unwrap();
    assert_eq!(decode(&key(t), &bytes), v);
}

fn inode() -> InodeItem {
    let ts = |s: u64| Timestamp { seconds: s, nanoseconds: 999_999_999 };
    InodeItem {
        generation: 7,
        transid: 9,
        size: 4096,
        nbytes: 8192,
        block_group: 0,
        nlink: 1,
        uid: 1000,
        gid: 100,
        mode: 0o100644,
        rdev: 0,
        flags: 0x10,
        sequence: 3,
        atime: ts(1),
        ctime: ts(2),
        mtime: ts(u64::MAX),
        otime: ts(0x0102_0304_0506_0708),
    }
}

fn dev() -> DevItem {
    DevItem {
        device_id: 1,
        total_bytes: 1 << 40,
        bytes_used: 1 << 30,
        io_align: 4096,
        io_width: 4096,
        sector_size: 4096,
        device_type: 0,
        generation: 5,
        start_offset: 0,
        dev_group: 0,
        seek_speed: 3,
        bandwidth: 4,
        device_uuid: [0xab; 16],
        filesystem_uuid: [1, 2, 3, 4, 5, 6, 7, 8, 9, 10, 11, 12, 13, 14, 15, 16],
    }
}

fn chunk(n: u64) -> ChunkItem {
    let mut stripes = Vec::new();
    for i in 0..n {
        stripes.push(ChunkStripe { device_id: i + 1, offset: i << 20, device_uuid: [i as u8; 16] });
    }
    ChunkItem {
        size: 1 << 30,
        owner: 2,
        stripe_length: 65536,
        chunk_type: 0x41,
        io_align: 65536,
        io_width: 65536,
        sector_size: 4096,
        sub_stripes: 2,
        stripes,
    }
}

fn dir_entry() -> DirEntry {
    DirEntry {
        location: Key { object_id: 257, item_type: INODE_ITEM_KEY, offset: 0 },
        transid: 11,
        child_type: 1,
        name: b"hello.txt".to_vec(),
        data: vec![],
    }
}

fn extent_data(body: ExtentDataBody) -> ExtentData {
    ExtentData { generation: 12, ram_bytes: 4096, compression: 0, encryption: 0, other_encoding: 0, body }
}

#[test]
fn inode_round_trip() {
    let bytes = encode(&LeafItem::InodeItem(inode())).unwrap();
    assert_eq!(bytes.len(), 160);
    assert!(bytes[80..112].iter().all(|b| *b == 0));
    round_trip(INODE_ITEM_KEY, LeafItem::InodeItem(inode()));
}

#[test]
fn dev_round_trip() {
    let bytes = encode(&LeafItem::DevItem(dev())).unwrap();
    assert_eq!(bytes.len(), 98);
    assert_eq!(&bytes[82..98], &[1, 2, 3, 4, 5, 6, 7, 8, 9, 10, 11, 12, 13, 14, 15, 16]);
    round_trip(DEV_ITEM_KEY, LeafItem::DevItem(dev()));
}

#[test]
fn extent_item_exact_bytes() {
    let v = ExtentItem { refs: 1, generation: 0x0102, flags: 0x8000_0000_0000_0000 };
    let bytes = encode(&LeafItem::ExtentItem(v)).unwrap();
    let mut expected = vec![1, 0, 0, 0, 0, 0, 0, 0, 2, 1, 0, 0, 0, 0, 0, 0];
    expected.extend_from_slice(&[0, 0, 0, 0, 0, 0, 0, 0x80]);
    assert_eq!(bytes, expected);
    round_trip(EXTENT_ITEM_KEY, LeafItem::ExtentItem(v));
}

#[test]
fn extent_item_ignores_trailing_bytes() {
    let mut raw = encode(&LeafItem::ExtentItem(ExtentItem { refs: 2, generation: 3, flags: 1 })).unwrap();
    raw.extend_from_slice(&[0xb0, 1, 2, 3, 4, 5, 6, 7, 8]);
    assert_eq!(
        decode(&key(EXTENT_ITEM_KEY), &raw),
        LeafItem::ExtentItem(ExtentItem { refs: 2, generation: 3, flags: 1 })
    );
}

#[test]
fn chunk_round_trip() {
    round_trip(CHUNK_ITEM_KEY, LeafItem::ChunkItem(chunk(0)));
    round_trip(CHUNK_ITEM_KEY, LeafItem::ChunkItem(chunk(1)));
    let bytes = encode(&LeafItem::ChunkItem(chunk(3))).unwrap();
    assert_eq!(bytes.len(), 48 + 3 * 32);
    assert_eq!(&bytes[44..46], &[3, 0]);
    round_trip(CHUNK_ITEM_KEY, LeafItem::ChunkItem(chunk(3)));
}

#[test]
fn chunk_missing_stripes_is_length_mismatch() {
    let bytes = encode(&LeafItem::ChunkItem(chunk(2))).unwrap();
    let cut = &bytes[..bytes.len() - 1];
    assert_eq!(
        decode(&key(CHUNK_ITEM_KEY), cut),
        LeafItem::InvalidItem(InvalidItem {
            item_type: CHUNK_ITEM_KEY,
            data: cut.to_vec(),
            reason: InvalidReason::LengthMismatch,
        })
    );
}

#[test]
fn dir_item_and_index_round_trip() {
    round_trip(DIR_ITEM_KEY, LeafItem::DirItem(dir_entry()));
    round_trip(DIR_INDEX_KEY, LeafItem::DirIndex(dir_entry()));
    let mut x = dir_entry();
    x.data = b"xattr-value".to_vec();
    x.name = vec![];
    round_trip(DIR_ITEM_KEY, LeafItem::DirItem(x));
}

#[test]
fn dir_item_layout() {
    let bytes = encode(&LeafItem::DirItem(dir_entry())).unwrap();
    assert_eq!(bytes.len(), 30 + 9);
    assert_eq!(&bytes[0..9], &[1, 1, 0, 0, 0, 0, 0, 0, INODE_ITEM_KEY]);
    assert_eq!(&bytes[25..30], &[0, 0, 9, 0, 1]);
    assert_eq!(&bytes[30..], b"hello.txt");
}

#[test]
fn dir_item_name_past_end_is_length_mismatch() {
    let bytes = encode(&LeafItem::DirItem(dir_entry())).unwrap();
    let cut = &bytes[..35];
    match decode(&key(DIR_ITEM_KEY), cut) {
        LeafItem::InvalidItem(i) => {
            assert_eq!(i.reason, InvalidReason::LengthMismatch);
            assert_eq!(i.data, cut.to_vec());
            assert_eq!(i.item_type, DIR_ITEM_KEY);
        }
        other => panic!("expected an invalid record, got {:?}", other),
    }
}

#[test]
fn dir_item_name_too_long_is_not_encodable() {
    let mut x = dir_entry();
    x.name = vec![b'a'; 65536];
    assert_eq!(encode(&LeafItem::DirItem(x)), Err(EncodeError::Unrepresentable));
}

#[test]
fn extent_data_round_trip() {
    let r = ExtentRef { disk_bytenr: 1 << 20, disk_num_bytes: 4096, offset: 0, num_bytes: 4096 };
    round_trip(EXTENT_DATA_KEY, LeafItem::ExtentData(extent_data(ExtentDataBody::Regular(r))));
    round_trip(EXTENT_DATA_KEY, LeafItem::ExtentData(extent_data(ExtentDataBody::Prealloc(r))));
    round_trip(EXTENT_DATA_KEY, LeafItem::ExtentData(extent_data(ExtentDataBody::Inline(b"tiny file".to_vec()))));
    round_trip(EXTENT_DATA_KEY, LeafItem::ExtentData(extent_data(ExtentDataBody::Other(9, vec![1, 2]))));
}

#[test]
fn extent_data_regular_needs_pointer() {
    let r = ExtentRef { disk_bytenr: 1, disk_num_bytes: 2, offset: 3, num_bytes: 4 };
    let bytes = encode(&LeafItem::ExtentData(extent_data(ExtentDataBody::Regular(r)))).unwrap();
    assert_eq!(bytes.len(), 53);
    assert_eq!(bytes[20], 1);
    match decode(&key(EXTENT_DATA_KEY), &bytes[..52]) {
        LeafItem::InvalidItem(i) => assert_eq!(i.reason, InvalidReason::TooShort),
        other => panic!("expected an invalid record, got {:?}", other),
    }
}

#[test]
fn extent_data_other_with_known_type_is_not_encodable() {
    let v = LeafItem::ExtentData(extent_data(ExtentDataBody::Other(1, vec![])));
    assert_eq!(encode(&v), Err(EncodeError::Unrepresentable));
}

#[test]
fn internal_item_round_trip() {
    let p = InternalItem { key: Key { object_id: 5, item_type: 132, offset: 77 }, block_number: 30408704, generation: 8 };
    let bytes = encode(&LeafItem::InternalItem(p)).unwrap();
    assert_eq!(bytes.len(), 33);
    assert_eq!(InternalItem::parse(&bytes), Ok(p));
    assert_eq!(InternalItem::parse(&bytes[..32]), Err(InvalidReason::TooShort));
}

#[test]
fn empty_payload_is_too_short_for_every_decoded_tag() {
    for t in [INODE_ITEM_KEY, DIR_ITEM_KEY, DIR_INDEX_KEY, EXTENT_DATA_KEY, EXTENT_ITEM_KEY, DEV_ITEM_KEY, CHUNK_ITEM_KEY] {
        assert_eq!(
            decode(&key(t), &[]),
            LeafItem::InvalidItem(InvalidItem { item_type: t, data: vec![], reason: InvalidReason::TooShort })
        );
    }
}

#[test]
fn short_payload_is_too_short() {
    let raw = vec![0u8; 159];
    match decode(&key(INODE_ITEM_KEY), &raw) {
        LeafItem::InvalidItem(i) => {
            assert_eq!(i.reason, InvalidReason::TooShort);
            assert_eq!(i.data.len(), 159);
        }
        other => panic!("expected an invalid record, got {:?}", other),
    }
}

#[test]
fn unknown_tag_keeps_bytes() {
    let raw = vec![9, 8, 7, 0, 255];
    let item = decode(&key(12), &raw);
    assert_eq!(item, LeafItem::UnknownItem(UnknownItem { item_type: 12, data: raw.clone() }));
    assert_eq!(encode(&item), Ok(raw));
    let empty = decode(&key(0), &[]);
    assert_eq!(empty, LeafItem::UnknownItem(UnknownItem { item_type: 0, data: vec![] }));
    assert_eq!(encode(&empty), Ok(vec![]));
}

#[test]
fn unknown_item_under_decoded_tag_is_not_encodable() {
    let v = LeafItem::UnknownItem(UnknownItem { item_type: INODE_ITEM_KEY, data: vec![1] });
    assert_eq!(encode(&v), Err(EncodeError::Unrepresentable));
}

#[test]
fn invalid_item_is_not_encodable() {
    let v = LeafItem::InvalidItem(InvalidItem { item_type: DEV_ITEM_KEY, data: vec![1, 2], reason: InvalidReason::TooShort });
    assert_eq!(encode(&v), Err(EncodeError::InvalidItem));
}

#[test]
fn variant_parsers_directly() {
    assert_eq!(DevItem::parse(&[0u8; 97]), Err(InvalidReason::TooShort));
    assert_eq!(ChunkItem::parse(&[0u8; 47]), Err(InvalidReason::TooShort));
    assert_eq!(DirEntry::parse(&[0u8; 29]), Err(InvalidReason::TooShort));
    assert_eq!(ExtentData::parse(&[0u8; 20]), Err(InvalidReason::TooShort));
    let z = ExtentData::parse(&[0u8; 21]).unwrap();
    assert_eq!(z.body, ExtentDataBody::Inline(vec![]));
}
