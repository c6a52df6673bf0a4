//! Typed leaf records of the copy-on-write B-tree, and their exact byte
//! layouts.
use vstd::prelude::*;
use crate::bytes::{
    bytes16, bytes32, bytes64, get_bytes16, get_range, get_u16, get_u32, get_u64, le16, le32, le64,
    lemma_le16, lemma_le32, lemma_le64, put_bytes, put_u16, put_u32, put_u64, put_u8,
};

verus! {

pub const INODE_ITEM_KEY: u8 = 1;

pub const DIR_ITEM_KEY: u8 = 84;

pub const DIR_INDEX_KEY: u8 = 96;

pub const EXTENT_DATA_KEY: u8 = 108;

pub const EXTENT_ITEM_KEY: u8 = 168;

pub const DEV_ITEM_KEY: u8 = 216;

pub const CHUNK_ITEM_KEY: u8 = 228;

pub const INODE_ITEM_SIZE: usize = 160;

pub const DEV_ITEM_SIZE: usize = 98;

pub const EXTENT_ITEM_SIZE: usize = 24;

/// On-disk size of a pointer from an interior node to a child block.
pub const INTERNAL_ITEM_SIZE: usize = 33;

/// The position and kind of a record in the tree.
#[derive(Clone, Copy, Debug, PartialEq, Eq)]
pub struct Key {
    pub object_id: u64,
    pub item_type: u8,
    pub offset: u64,
}

/// The key stored in 17 bytes at `i`: object id, type tag, offset.
pub open spec fn parse_key(b: Seq<u8>, i: int) -> Key {
    Key { object_id: le64(b, i), item_type: b[i + 8], offset: le64(b, i + 9) }
}

pub open spec fn key_bytes(k: Key) -> Seq<u8> {
    bytes64(k.object_id) + seq![k.item_type] + bytes64(k.offset)
}

fn get_key(b: &[u8], i: usize) -> (r: Key)
    requires
        i + 17 <= b@.len(),
    ensures
        r == parse_key(b@, i as int),
{
    let n = b.len();
    let object_id = get_u64(b, i);
    let item_type = b[i + 8];
    let offset = get_u64(b, i + 9);
    Key { object_id, item_type, offset }
}

fn put_key(out: &mut Vec<u8>, k: Key)
    ensures
        final(out)@ == old(out)@ + key_bytes(k),
{
    put_u64(out, k.object_id);
    put_u8(out, k.item_type);
    put_u64(out, k.offset);
    assert(out@ =~= old(out)@ + key_bytes(k));
}

#[derive(Clone, Copy, Debug, PartialEq, Eq)]
pub struct Timestamp {
    pub seconds: u64,
    pub nanoseconds: u32,
}

pub open spec fn parse_timestamp(b: Seq<u8>, i: int) -> Timestamp {
    Timestamp { seconds: le64(b, i), nanoseconds: le32(b, i + 8) }
}

pub open spec fn timestamp_bytes(t: Timestamp) -> Seq<u8> {
    bytes64(t.seconds) + bytes32(t.nanoseconds)
}

/// An inode: size, ownership, mode and times of a file or directory.
#[derive(Clone, Copy, Debug, PartialEq, Eq)]
pub struct InodeItem {
    pub generation: u64,
    pub transid: u64,
    pub size: u64,
    pub nbytes: u64,
    pub block_group: u64,
    pub nlink: u32,
    pub uid: u32,
    pub gid: u32,
    pub mode: u32,
    pub rdev: u64,
    pub flags: u64,
    pub sequence: u64,
    pub atime: Timestamp,
    pub ctime: Timestamp,
    pub mtime: Timestamp,
    pub otime: Timestamp,
}

/// The inode stored at the start of `b`; the 32 reserved bytes at offset 80
/// are skipped.
pub open spec fn parse_inode(b: Seq<u8>) -> InodeItem {
    InodeItem {
        generation: le64(b, 0),
        transid: le64(b, 8),
        size: le64(b, 16),
        nbytes: le64(b, 24),
        block_group: le64(b, 32),
        nlink: le32(b, 40),
        uid: le32(b, 44),
        gid: le32(b, 48),
        mode: le32(b, 52),
        rdev: le64(b, 56),
        flags: le64(b, 64),
        sequence: le64(b, 72),
        atime: parse_timestamp(b, 112),
        ctime: parse_timestamp(b, 124),
        mtime: parse_timestamp(b, 136),
        otime: parse_timestamp(b, 148),
    }
}

/// The 160 bytes of an inode record, reserved bytes zeroed.
pub open spec fn inode_bytes(v: InodeItem) -> Seq<u8> {
    bytes64(v.generation) + bytes64(v.transid) + bytes64(v.size) + bytes64(v.nbytes) + bytes64(
        v.block_group,
    ) + bytes32(v.nlink) + bytes32(v.uid) + bytes32(v.gid) + bytes32(v.mode) + bytes64(v.rdev)
        + bytes64(v.flags) + bytes64(v.sequence) + Seq::new(32, |k: int| 0u8) + timestamp_bytes(
        v.atime,
    ) + timestamp_bytes(v.ctime) + timestamp_bytes(v.mtime) + timestamp_bytes(v.otime)
}

#[verifier::rlimit(40)]
pub proof fn lemma_inode_round_trip(v: InodeItem)
    ensures
        inode_bytes(v).len() == INODE_ITEM_SIZE,
        parse_inode(inode_bytes(v)) == v,
{
    let e = inode_bytes(v);
    assert(e.len() == 160);
    assert(e.subrange(0, 8) =~= bytes64(v.generation));
    assert(e.subrange(8, 16) =~= bytes64(v.transid));
    assert(e.subrange(16, 24) =~= bytes64(v.size));
    assert(e.subrange(24, 32) =~= bytes64(v.nbytes));
    assert(e.subrange(32, 40) =~= bytes64(v.block_group));
    assert(e.subrange(40, 44) =~= bytes32(v.nlink));
    assert(e.subrange(44, 48) =~= bytes32(v.uid));
    assert(e.subrange(48, 52) =~= bytes32(v.gid));
    assert(e.subrange(52, 56) =~= bytes32(v.mode));
    assert(e.subrange(56, 64) =~= bytes64(v.rdev));
    assert(e.subrange(64, 72) =~= bytes64(v.flags));
    assert(e.subrange(72, 80) =~= bytes64(v.sequence));
    assert(e.subrange(112, 120) =~= bytes64(v.atime.seconds));
    assert(e.subrange(120, 124) =~= bytes32(v.atime.nanoseconds));
    assert(e.subrange(124, 132) =~= bytes64(v.ctime.seconds));
    assert(e.subrange(132, 136) =~= bytes32(v.ctime.nanoseconds));
    assert(e.subrange(136, 144) =~= bytes64(v.mtime.seconds));
    assert(e.subrange(144, 148) =~= bytes32(v.mtime.nanoseconds));
    assert(e.subrange(148, 156) =~= bytes64(v.otime.seconds));
    assert(e.subrange(156, 160) =~= bytes32(v.otime.nanoseconds));
    lemma_le64(e, 0, v.generation);
    lemma_le64(e, 8, v.transid);
    lemma_le64(e, 16, v.size);
    lemma_le64(e, 24, v.nbytes);
    lemma_le64(e, 32, v.block_group);
    lemma_le32(e, 40, v.nlink);
    lemma_le32(e, 44, v.uid);
    lemma_le32(e, 48, v.gid);
    lemma_le32(e, 52, v.mode);
    lemma_le64(e, 56, v.rdev);
    lemma_le64(e, 64, v.flags);
    lemma_le64(e, 72, v.sequence);
    lemma_le64(e, 112, v.atime.seconds);
    lemma_le32(e, 120, v.atime.nanoseconds);
    lemma_le64(e, 124, v.ctime.seconds);
    lemma_le32(e, 132, v.ctime.nanoseconds);
    lemma_le64(e, 136, v.mtime.seconds);
    lemma_le32(e, 144, v.mtime.nanoseconds);
    lemma_le64(e, 148, v.otime.seconds);
    lemma_le32(e, 156, v.otime.nanoseconds);
}

/// Why a payload of a recognized kind could not be read.
#[derive(Clone, Copy, Debug, PartialEq, Eq, Structural)]
pub enum InvalidReason {
    /// The buffer ends before the record's fixed part does.
    TooShort,
    /// A length stated inside the record runs past the end of the buffer.
    LengthMismatch,
}

fn put_zeros(out: &mut Vec<u8>, n: usize)
    ensures
        final(out)@ == old(out)@ + Seq::new(n as nat, |k: int| 0u8),
{
    let mut i: usize = 0;
    while i < n
        invariant
            i <= n,
            out@ == old(out)@ + Seq::new(i as nat, |k: int| 0u8),
        decreases n - i,
    {
        out.push(0u8);
        i = i + 1;
        assert(out@ =~= old(out)@ + Seq::new(i as nat, |k: int| 0u8));
    }
}

impl InodeItem {
    /// Reads an inode record; bytes after its 160 are ignored.
    pub fn parse(raw: &[u8]) -> (r: Result<InodeItem, InvalidReason>)
        ensures
            raw@.len() < INODE_ITEM_SIZE ==> r == Err::<InodeItem, InvalidReason>(
                InvalidReason::TooShort,
            ),
            raw@.len() >= INODE_ITEM_SIZE ==> r == Ok::<InodeItem, InvalidReason>(
                parse_inode(raw@),
            ),
    {
        if raw.len() < INODE_ITEM_SIZE {
            return Err(InvalidReason::TooShort);
        }
        let time = |i: usize| -> (t: Timestamp)
            requires
                i + 12 <= raw@.len(),
            ensures
                t == parse_timestamp(raw@, i as int),
            { Timestamp { seconds: get_u64(raw, i), nanoseconds: get_u32(raw, i + 8) } };
        Ok(
            InodeItem {
                generation: get_u64(raw, 0),
                transid: get_u64(raw, 8),
                size: get_u64(raw, 16),
                nbytes: get_u64(raw, 24),
                block_group: get_u64(raw, 32),
                nlink: get_u32(raw, 40),
                uid: get_u32(raw, 44),
                gid: get_u32(raw, 48),
                mode: get_u32(raw, 52),
                rdev: get_u64(raw, 56),
                flags: get_u64(raw, 64),
                sequence: get_u64(raw, 72),
                atime: time(112),
                ctime: time(124),
                mtime: time(136),
                otime: time(148),
            },
        )
    }

    /// Appends the record's 160 bytes.
    pub fn write(&self, out: &mut Vec<u8>)
        ensures
            final(out)@ == old(out)@ + inode_bytes(*self),
    {
        put_u64(out, self.generation);
        put_u64(out, self.transid);
        put_u64(out, self.size);
        put_u64(out, self.nbytes);
        put_u64(out, self.block_group);
        put_u32(out, self.nlink);
        put_u32(out, self.uid);
        put_u32(out, self.gid);
        put_u32(out, self.mode);
        put_u64(out, self.rdev);
        put_u64(out, self.flags);
        put_u64(out, self.sequence);
        put_zeros(out, 32);
        put_u64(out, self.atime.seconds);
        put_u32(out, self.atime.nanoseconds);
        put_u64(out, self.ctime.seconds);
        put_u32(out, self.ctime.nanoseconds);
        put_u64(out, self.mtime.seconds);
        put_u32(out, self.mtime.nanoseconds);
        put_u64(out, self.otime.seconds);
        put_u32(out, self.otime.nanoseconds);
        assert(out@ =~= old(out)@ + inode_bytes(*self));
    }
}

/// A member device as the chunk tree records it.
#[derive(Clone, Copy, Debug, PartialEq, Eq)]
pub struct DevItem {
    pub device_id: u64,
    pub total_bytes: u64,
    pub bytes_used: u64,
    pub io_align: u32,
    pub io_width: u32,
    pub sector_size: u32,
    pub device_type: u64,
    pub generation: u64,
    pub start_offset: u64,
    pub dev_group: u32,
    pub seek_speed: u8,
    pub bandwidth: u8,
    pub device_uuid: [u8; 16],
    pub filesystem_uuid: [u8; 16],
}

pub open spec fn parse_dev(b: Seq<u8>) -> DevItem {
    DevItem {
        device_id: le64(b, 0),
        total_bytes: le64(b, 8),
        bytes_used: le64(b, 16),
        io_align: le32(b, 24),
        io_width: le32(b, 28),
        sector_size: le32(b, 32),
        device_type: le64(b, 36),
        generation: le64(b, 44),
        start_offset: le64(b, 52),
        dev_group: le32(b, 60),
        seek_speed: b[64],
        bandwidth: b[65],
        device_uuid: array_of(b.subrange(66, 82)),
        filesystem_uuid: array_of(b.subrange(82, 98)),
    }
}

/// The array whose contents are `s`.
pub open spec fn array_of(s: Seq<u8>) -> [u8; 16] {
    choose|a: [u8; 16]| a@ == s
}

pub open spec fn dev_bytes(v: DevItem) -> Seq<u8> {
    bytes64(v.device_id) + bytes64(v.total_bytes) + bytes64(v.bytes_used) + bytes32(v.io_align)
        + bytes32(v.io_width) + bytes32(v.sector_size) + bytes64(v.device_type) + bytes64(
        v.generation,
    ) + bytes64(v.start_offset) + bytes32(v.dev_group) + seq![v.seek_speed, v.bandwidth]
        + v.device_uuid@ + v.filesystem_uuid@
}

fn get_uuid(b: &[u8], i: usize) -> (r: [u8; 16])
    requires
        i + 16 <= b@.len(),
    ensures
        r == array_of(b@.subrange(i as int, i + 16)),
{
    let r = get_bytes16(b, i);
    proof {
        let s = b@.subrange(i as int, i + 16);
        assert(r@ == s);
        assert(array_of(s)@ == s);
        assert(array_of(s) =~= r);
    }
    r
}

#[verifier::rlimit(40)]
pub proof fn lemma_dev_round_trip(v: DevItem)
    ensures
        dev_bytes(v).len() == DEV_ITEM_SIZE,
        parse_dev(dev_bytes(v)) == v,
{
    let e = dev_bytes(v);
    assert(e.len() == 98);
    assert(e.subrange(0, 8) =~= bytes64(v.device_id));
    assert(e.subrange(8, 16) =~= bytes64(v.total_bytes));
    assert(e.subrange(16, 24) =~= bytes64(v.bytes_used));
    assert(e.subrange(24, 28) =~= bytes32(v.io_align));
    assert(e.subrange(28, 32) =~= bytes32(v.io_width));
    assert(e.subrange(32, 36) =~= bytes32(v.sector_size));
    assert(e.subrange(36, 44) =~= bytes64(v.device_type));
    assert(e.subrange(44, 52) =~= bytes64(v.generation));
    assert(e.subrange(52, 60) =~= bytes64(v.start_offset));
    assert(e.subrange(60, 64) =~= bytes32(v.dev_group));
    assert(e.subrange(66, 82) =~= v.device_uuid@);
    assert(e.subrange(82, 98) =~= v.filesystem_uuid@);
    lemma_le64(e, 0, v.device_id);
    lemma_le64(e, 8, v.total_bytes);
    lemma_le64(e, 16, v.bytes_used);
    lemma_le32(e, 24, v.io_align);
    lemma_le32(e, 28, v.io_width);
    lemma_le32(e, 32, v.sector_size);
    lemma_le64(e, 36, v.device_type);
    lemma_le64(e, 44, v.generation);
    lemma_le64(e, 52, v.start_offset);
    lemma_le32(e, 60, v.dev_group);
    assert(array_of(v.device_uuid@) =~= v.device_uuid);
    assert(array_of(v.filesystem_uuid@) =~= v.filesystem_uuid);
}

impl DevItem {
    /// Reads a device record; bytes after its 98 are ignored.
    pub fn parse(raw: &[u8]) -> (r: Result<DevItem, InvalidReason>)
        ensures
            raw@.len() < DEV_ITEM_SIZE ==> r == Err::<DevItem, InvalidReason>(
                InvalidReason::TooShort,
            ),
            raw@.len() >= DEV_ITEM_SIZE ==> r == Ok::<DevItem, InvalidReason>(parse_dev(raw@)),
    {
        if raw.len() < DEV_ITEM_SIZE {
            return Err(InvalidReason::TooShort);
        }
        Ok(
            DevItem {
                device_id: get_u64(raw, 0),
                total_bytes: get_u64(raw, 8),
                bytes_used: get_u64(raw, 16),
                io_align: get_u32(raw, 24),
                io_width: get_u32(raw, 28),
                sector_size: get_u32(raw, 32),
                device_type: get_u64(raw, 36),
                generation: get_u64(raw, 44),
                start_offset: get_u64(raw, 52),
                dev_group: get_u32(raw, 60),
                seek_speed: raw[64],
                bandwidth: raw[65],
                device_uuid: get_uuid(raw, 66),
                filesystem_uuid: get_uuid(raw, 82),
            },
        )
    }

    /// Appends the record's 98 bytes.
    pub fn write(&self, out: &mut Vec<u8>)
        ensures
            final(out)@ == old(out)@ + dev_bytes(*self),
    {
        put_u64(out, self.device_id);
        put_u64(out, self.total_bytes);
        put_u64(out, self.bytes_used);
        put_u32(out, self.io_align);
        put_u32(out, self.io_width);
        put_u32(out, self.sector_size);
        put_u64(out, self.device_type);
        put_u64(out, self.generation);
        put_u64(out, self.start_offset);
        put_u32(out, self.dev_group);
        put_u8(out, self.seek_speed);
        put_u8(out, self.bandwidth);
        put_bytes(out, self.device_uuid.as_slice());
        put_bytes(out, self.filesystem_uuid.as_slice());
        assert(out@ =~= old(out)@ + dev_bytes(*self));
    }
}

/// An allocated extent: its reference count and flags. Inline back
/// references that may follow the 24 bytes are not kept.
#[derive(Clone, Copy, Debug, PartialEq, Eq)]
pub struct ExtentItem {
    pub refs: u64,
    pub generation: u64,
    pub flags: u64,
}

pub open spec fn parse_extent_item(b: Seq<u8>) -> ExtentItem {
    ExtentItem { refs: le64(b, 0), generation: le64(b, 8), flags: le64(b, 16) }
}

pub open spec fn extent_item_bytes(v: ExtentItem) -> Seq<u8> {
    bytes64(v.refs) + bytes64(v.generation) + bytes64(v.flags)
}

pub proof fn lemma_extent_item_round_trip(v: ExtentItem)
    ensures
        extent_item_bytes(v).len() == EXTENT_ITEM_SIZE,
        parse_extent_item(extent_item_bytes(v)) == v,
{
    let e = extent_item_bytes(v);
    assert(e.subrange(0, 8) =~= bytes64(v.refs));
    assert(e.subrange(8, 16) =~= bytes64(v.generation));
    assert(e.subrange(16, 24) =~= bytes64(v.flags));
    lemma_le64(e, 0, v.refs);
    lemma_le64(e, 8, v.generation);
    lemma_le64(e, 16, v.flags);
}

impl ExtentItem {
    /// Reads the fixed part of an extent record; what follows it is ignored.
    pub fn parse(raw: &[u8]) -> (r: Result<ExtentItem, InvalidReason>)
        ensures
            raw@.len() < EXTENT_ITEM_SIZE ==> r == Err::<ExtentItem, InvalidReason>(
                InvalidReason::TooShort,
            ),
            raw@.len() >= EXTENT_ITEM_SIZE ==> r == Ok::<ExtentItem, InvalidReason>(
                parse_extent_item(raw@),
            ),
    {
        if raw.len() < EXTENT_ITEM_SIZE {
            return Err(InvalidReason::TooShort);
        }
        Ok(
            ExtentItem {
                refs: get_u64(raw, 0),
                generation: get_u64(raw, 8),
                flags: get_u64(raw, 16),
            },
        )
    }

    /// Appends the record's 24 bytes.
    pub fn write(&self, out: &mut Vec<u8>)
        ensures
            final(out)@ == old(out)@ + extent_item_bytes(*self),
    {
        put_u64(out, self.refs);
        put_u64(out, self.generation);
        put_u64(out, self.flags);
        assert(out@ =~= old(out)@ + extent_item_bytes(*self));
    }
}

/// A pointer from an interior node to a child block: the first key of the
/// child, its block number and the generation it was written in.
#[derive(Clone, Copy, Debug, PartialEq, Eq)]
pub struct InternalItem {
    pub key: Key,
    pub block_number: u64,
    pub generation: u64,
}

pub open spec fn parse_internal(b: Seq<u8>) -> InternalItem {
    InternalItem { key: parse_key(b, 0), block_number: le64(b, 17), generation: le64(b, 25) }
}

pub open spec fn internal_bytes(v: InternalItem) -> Seq<u8> {
    key_bytes(v.key) + bytes64(v.block_number) + bytes64(v.generation)
}

proof fn lemma_key_at(e: Seq<u8>, i: int, k: Key)
    requires
        0 <= i,
        i + 17 <= e.len(),
        e.subrange(i, i + 17) == key_bytes(k),
    ensures
        parse_key(e, i) == k,
{
    let w = e.subrange(i, i + 17);
    assert(w.subrange(0, 8) =~= bytes64(k.object_id));
    assert(w.subrange(9, 17) =~= bytes64(k.offset));
    assert(e.subrange(i, i + 8) =~= w.subrange(0, 8));
    assert(e.subrange(i + 9, i + 17) =~= w.subrange(9, 17));
    assert(e[i + 8] == w[8]);
    lemma_le64(e, i, k.object_id);
    lemma_le64(e, i + 9, k.offset);
}

pub proof fn lemma_internal_round_trip(v: InternalItem)
    ensures
        internal_bytes(v).len() == INTERNAL_ITEM_SIZE,
        parse_internal(internal_bytes(v)) == v,
{
    let e = internal_bytes(v);
    assert(e.subrange(0, 17) =~= key_bytes(v.key));
    assert(e.subrange(17, 25) =~= bytes64(v.block_number));
    assert(e.subrange(25, 33) =~= bytes64(v.generation));
    lemma_key_at(e, 0, v.key);
    lemma_le64(e, 17, v.block_number);
    lemma_le64(e, 25, v.generation);
}

impl InternalItem {
    /// Reads a child pointer; bytes after its 33 are ignored.
    pub fn parse(raw: &[u8]) -> (r: Result<InternalItem, InvalidReason>)
        ensures
            raw@.len() < INTERNAL_ITEM_SIZE ==> r == Err::<InternalItem, InvalidReason>(
                InvalidReason::TooShort,
            ),
            raw@.len() >= INTERNAL_ITEM_SIZE ==> r == Ok::<InternalItem, InvalidReason>(
                parse_internal(raw@),
            ),
    {
        if raw.len() < INTERNAL_ITEM_SIZE {
            return Err(InvalidReason::TooShort);
        }
        Ok(
            InternalItem {
                key: get_key(raw, 0),
                block_number: get_u64(raw, 17),
                generation: get_u64(raw, 25),
            },
        )
    }

    /// Appends the pointer's 33 bytes.
    pub fn write(&self, out: &mut Vec<u8>)
        ensures
            final(out)@ == old(out)@ + internal_bytes(*self),
    {
        put_key(out, self.key);
        put_u64(out, self.block_number);
        put_u64(out, self.generation);
        assert(out@ =~= old(out)@ + internal_bytes(*self));
    }
}

/// On-disk size of a chunk record without its stripes.
pub const CHUNK_HEADER_SIZE: usize = 48;

/// On-disk size of one stripe of a chunk.
pub const CHUNK_STRIPE_SIZE: usize = 32;

/// Where one copy or slice of a chunk lives.
#[derive(Clone, Copy, Debug, PartialEq, Eq)]
pub struct ChunkStripe {
    pub device_id: u64,
    pub offset: u64,
    pub device_uuid: [u8; 16],
}

pub open spec fn parse_stripe(b: Seq<u8>, i: int) -> ChunkStripe {
    ChunkStripe {
        device_id: le64(b, i),
        offset: le64(b, i + 8),
        device_uuid: array_of(b.subrange(i + 16, i + 32)),
    }
}

pub open spec fn stripe_bytes(v: ChunkStripe) -> Seq<u8> {
    bytes64(v.device_id) + bytes64(v.offset) + v.device_uuid@
}

pub open spec fn stripes_bytes(s: Seq<ChunkStripe>) -> Seq<u8>
    decreases s.len(),
{
    if s.len() == 0 {
        Seq::empty()
    } else {
        stripes_bytes(s.drop_last()) + stripe_bytes(s.last())
    }
}

/// A chunk: a logical address range and the stripes that hold it.
#[derive(Debug, PartialEq, Eq)]
pub struct ChunkItem {
    pub size: u64,
    pub owner: u64,
    pub stripe_length: u64,
    pub chunk_type: u64,
    pub io_align: u32,
    pub io_width: u32,
    pub sector_size: u32,
    pub sub_stripes: u16,
    pub stripes: Vec<ChunkStripe>,
}

/// Why `b` holds no chunk record, if it does not: it ends before the fixed
/// part, or before the number of stripes that the record states.
pub open spec fn chunk_fault(b: Seq<u8>) -> Option<InvalidReason> {
    if b.len() < CHUNK_HEADER_SIZE {
        Some(InvalidReason::TooShort)
    } else if CHUNK_HEADER_SIZE + CHUNK_STRIPE_SIZE * le16(b, 44) > b.len() {
        Some(InvalidReason::LengthMismatch)
    } else {
        None
    }
}

/// `c` is the chunk record stored at the start of `b`.
pub open spec fn chunk_parses_to(b: Seq<u8>, c: ChunkItem) -> bool {
    &&& c.size == le64(b, 0)
    &&& c.owner == le64(b, 8)
    &&& c.stripe_length == le64(b, 16)
    &&& c.chunk_type == le64(b, 24)
    &&& c.io_align == le32(b, 32)
    &&& c.io_width == le32(b, 36)
    &&& c.sector_size == le32(b, 40)
    &&& c.sub_stripes == le16(b, 46)
    &&& c.stripes@ == Seq::new(le16(b, 44) as nat, |k: int| parse_stripe(b, 48 + 32 * k))
}

pub open spec fn chunk_bytes(c: ChunkItem) -> Seq<u8> {
    bytes64(c.size) + bytes64(c.owner) + bytes64(c.stripe_length) + bytes64(c.chunk_type)
        + bytes32(c.io_align) + bytes32(c.io_width) + bytes32(c.sector_size) + bytes16(
        c.stripes@.len() as u16,
    ) + bytes16(c.sub_stripes) + stripes_bytes(c.stripes@)
}

proof fn lemma_stripe_at(e: Seq<u8>, i: int, v: ChunkStripe)
    requires
        0 <= i,
        i + 32 <= e.len(),
        e.subrange(i, i + 32) == stripe_bytes(v),
    ensures
        parse_stripe(e, i) == v,
{
    let w = e.subrange(i, i + 32);
    assert(e.subrange(i, i + 8) =~= w.subrange(0, 8));
    assert(e.subrange(i + 8, i + 16) =~= w.subrange(8, 16));
    assert(e.subrange(i + 16, i + 32) =~= w.subrange(16, 32));
    assert(w.subrange(0, 8) =~= bytes64(v.device_id));
    assert(w.subrange(8, 16) =~= bytes64(v.offset));
    assert(w.subrange(16, 32) =~= v.device_uuid@);
    lemma_le64(e, i, v.device_id);
    lemma_le64(e, i + 8, v.offset);
    assert(array_of(v.device_uuid@) =~= v.device_uuid);
}

proof fn lemma_stripes_bytes_len(s: Seq<ChunkStripe>)
    ensures
        stripes_bytes(s).len() == 32 * s.len(),
    decreases s.len(),
{
    if s.len() > 0 {
        lemma_stripes_bytes_len(s.drop_last());
    }
}

proof fn lemma_stripes_bytes(s: Seq<ChunkStripe>, k: int)
    requires
        0 <= k < s.len(),
    ensures
        stripes_bytes(s).len() == 32 * s.len(),
        stripes_bytes(s).subrange(32 * k, 32 * k + 32) == stripe_bytes(s[k]),
    decreases s.len(),
{
    let d = s.drop_last();
    lemma_stripes_bytes_len(s);
    lemma_stripes_bytes_len(d);
    let p = stripes_bytes(d);
    let q = stripe_bytes(s.last());
    assert(stripes_bytes(s) == p + q);
    assert(p.len() == 32 * (s.len() - 1)) by (nonlinear_arith)
        requires
            p.len() == 32 * d.len(),
            d.len() == s.len() - 1,
    ;
    if k < s.len() - 1 {
        lemma_stripes_bytes(d, k);
        assert(32 * k + 32 <= p.len()) by (nonlinear_arith)
            requires
                k < d.len(),
                p.len() == 32 * d.len(),
        ;
        assert((p + q).subrange(32 * k, 32 * k + 32) =~= p.subrange(32 * k, 32 * k + 32));
    } else {
        assert(32 * k == p.len());
        assert((p + q).subrange(32 * k, 32 * k + 32) =~= q);
    }
}

#[verifier::rlimit(40)]
pub proof fn lemma_chunk_round_trip(c: ChunkItem)
    requires
        c.stripes@.len() <= u16::MAX,
    ensures
        chunk_bytes(c).len() == CHUNK_HEADER_SIZE + CHUNK_STRIPE_SIZE * c.stripes@.len(),
        chunk_fault(chunk_bytes(c)) is None,
        chunk_parses_to(chunk_bytes(c), c),
{
    let e = chunk_bytes(c);
    let n = c.stripes@.len();
    lemma_stripes_bytes_len(c.stripes@);
    assert(e.subrange(0, 8) =~= bytes64(c.size));
    assert(e.subrange(8, 16) =~= bytes64(c.owner));
    assert(e.subrange(16, 24) =~= bytes64(c.stripe_length));
    assert(e.subrange(24, 32) =~= bytes64(c.chunk_type));
    assert(e.subrange(32, 36) =~= bytes32(c.io_align));
    assert(e.subrange(36, 40) =~= bytes32(c.io_width));
    assert(e.subrange(40, 44) =~= bytes32(c.sector_size));
    assert(e.subrange(44, 46) =~= bytes16(n as u16));
    assert(e.subrange(46, 48) =~= bytes16(c.sub_stripes));
    lemma_le64(e, 0, c.size);
    lemma_le64(e, 8, c.owner);
    lemma_le64(e, 16, c.stripe_length);
    lemma_le64(e, 24, c.chunk_type);
    lemma_le32(e, 32, c.io_align);
    lemma_le32(e, 36, c.io_width);
    lemma_le32(e, 40, c.sector_size);
    lemma_le16(e, 44, n as u16);
    lemma_le16(e, 46, c.sub_stripes);
    assert forall|k: int| 0 <= k < n implies #[trigger] parse_stripe(e, 48 + 32 * k)
        == c.stripes@[k] by {
        lemma_stripes_bytes(c.stripes@, k);
        assert(e.subrange(48 + 32 * k, 48 + 32 * k + 32) =~= stripes_bytes(c.stripes@).subrange(
            32 * k,
            32 * k + 32,
        ));
        lemma_stripe_at(e, 48 + 32 * k, c.stripes@[k]);
    }
    assert(c.stripes@ =~= Seq::new(le16(e, 44) as nat, |k: int| parse_stripe(e, 48 + 32 * k)));
}

impl ChunkItem {
    /// Reads a chunk record with the number of stripes that it states;
    /// bytes after the last stripe are ignored.
    pub fn parse(raw: &[u8]) -> (r: Result<ChunkItem, InvalidReason>)
        ensures
            chunk_fault(raw@) is Some ==> r == Err::<ChunkItem, InvalidReason>(
                chunk_fault(raw@).unwrap(),
            ),
            chunk_fault(raw@) is None ==> r is Ok && chunk_parses_to(raw@, r->Ok_0),
    {
        let len = raw.len();
        if len < CHUNK_HEADER_SIZE {
            return Err(InvalidReason::TooShort);
        }
        let n = get_u16(raw, 44) as usize;
        if CHUNK_HEADER_SIZE + CHUNK_STRIPE_SIZE * n > len {
            return Err(InvalidReason::LengthMismatch);
        }
        let mut stripes: Vec<ChunkStripe> = Vec::new();
        let mut k: usize = 0;
        while k < n
            invariant
                k <= n,
                n == le16(raw@, 44),
                48 + 32 * n <= len == raw@.len(),
                stripes@ == Seq::new(k as nat, |j: int| parse_stripe(raw@, 48 + 32 * j)),
            decreases n - k,
        {
            let at = 48 + 32 * k;
            let stripe = ChunkStripe {
                device_id: get_u64(raw, at),
                offset: get_u64(raw, at + 8),
                device_uuid: get_uuid(raw, at + 16),
            };
            stripes.push(stripe);
            k = k + 1;
            assert(stripes@ =~= Seq::new(k as nat, |j: int| parse_stripe(raw@, 48 + 32 * j)));
        }
        Ok(
            ChunkItem {
                size: get_u64(raw, 0),
                owner: get_u64(raw, 8),
                stripe_length: get_u64(raw, 16),
                chunk_type: get_u64(raw, 24),
                io_align: get_u32(raw, 32),
                io_width: get_u32(raw, 36),
                sector_size: get_u32(raw, 40),
                sub_stripes: get_u16(raw, 46),
                stripes,
            },
        )
    }

    /// Appends the record with all its stripes; the stripe count must fit
    /// the record's 16-bit field.
    pub fn write(&self, out: &mut Vec<u8>)
        requires
            self.stripes@.len() <= u16::MAX,
        ensures
            final(out)@ == old(out)@ + chunk_bytes(*self),
    {
        let start = Ghost(old(out)@);
        put_u64(out, self.size);
        put_u64(out, self.owner);
        put_u64(out, self.stripe_length);
        put_u64(out, self.chunk_type);
        put_u32(out, self.io_align);
        put_u32(out, self.io_width);
        put_u32(out, self.sector_size);
        put_u16(out, self.stripes.len() as u16);
        put_u16(out, self.sub_stripes);
        let head = Ghost(out@);
        let mut k: usize = 0;
        while k < self.stripes.len()
            invariant
                k <= self.stripes@.len(),
                out@ == head@ + stripes_bytes(self.stripes@.subrange(0, k as int)),
            decreases self.stripes@.len() - k,
        {
            let stripe = self.stripes[k];
            put_u64(out, stripe.device_id);
            put_u64(out, stripe.offset);
            put_bytes(out, stripe.device_uuid.as_slice());
            proof {
                let s = self.stripes@.subrange(0, k + 1);
                assert(s.drop_last() =~= self.stripes@.subrange(0, k as int));
            }
            k = k + 1;
            assert(out@ =~= head@ + stripes_bytes(self.stripes@.subrange(0, k as int)));
        }
        assert(self.stripes@.subrange(0, k as int) =~= self.stripes@);
        assert(out@ =~= start@ + chunk_bytes(*self));
    }
}

/// On-disk size of a directory entry without its name and data.
pub const DIR_ENTRY_HEADER_SIZE: usize = 30;

/// A name in a directory: the key of the inode it leads to, the kind of
/// that inode, and the name's bytes (with extended-attribute data, if any).
#[derive(Debug, PartialEq, Eq)]
pub struct DirEntry {
    pub location: Key,
    pub transid: u64,
    pub child_type: u8,
    pub name: Vec<u8>,
    pub data: Vec<u8>,
}

/// The name length that a directory entry at the start of `b` states.
pub open spec fn dir_name_len(b: Seq<u8>) -> int {
    le16(b, 27) as int
}

/// The data length that a directory entry at the start of `b` states.
pub open spec fn dir_data_len(b: Seq<u8>) -> int {
    le16(b, 25) as int
}

/// Why `b` holds no directory entry, if it does not: it ends before the
/// fixed part, or before the name and data that the entry states.
pub open spec fn dir_fault(b: Seq<u8>) -> Option<InvalidReason> {
    if b.len() < DIR_ENTRY_HEADER_SIZE {
        Some(InvalidReason::TooShort)
    } else if DIR_ENTRY_HEADER_SIZE + dir_name_len(b) + dir_data_len(b) > b.len() {
        Some(InvalidReason::LengthMismatch)
    } else {
        None
    }
}

/// `e` is the directory entry stored at the start of `b`.
pub open spec fn dir_parses_to(b: Seq<u8>, e: DirEntry) -> bool {
    let n = dir_name_len(b);
    &&& e.location == parse_key(b, 0)
    &&& e.transid == le64(b, 17)
    &&& e.child_type == b[29]
    &&& e.name@ == b.subrange(30, 30 + n)
    &&& e.data@ == b.subrange(30 + n, 30 + n + dir_data_len(b))
}

pub open spec fn dir_bytes(e: DirEntry) -> Seq<u8> {
    key_bytes(e.location) + bytes64(e.transid) + bytes16(e.data@.len() as u16) + bytes16(
        e.name@.len() as u16,
    ) + seq![e.child_type] + e.name@ + e.data@
}

/// The name and data lengths fit the entry's 16-bit fields.
pub open spec fn dir_fits(e: DirEntry) -> bool {
    e.name@.len() <= u16::MAX && e.data@.len() <= u16::MAX
}

#[verifier::rlimit(40)]
pub proof fn lemma_dir_round_trip(e: DirEntry)
    requires
        dir_fits(e),
    ensures
        dir_bytes(e).len() == DIR_ENTRY_HEADER_SIZE + e.name@.len() + e.data@.len(),
        dir_fault(dir_bytes(e)) is None,
        dir_parses_to(dir_bytes(e), e),
{
    let b = dir_bytes(e);
    let n = e.name@.len() as int;
    let d = e.data@.len() as int;
    let h = key_bytes(e.location) + bytes64(e.transid) + bytes16(d as u16) + bytes16(n as u16)
        + seq![e.child_type];
    assert(h.len() == 30);
    assert(b == h + e.name@ + e.data@);
    assert(b.subrange(0, 17) =~= key_bytes(e.location));
    assert(b.subrange(17, 25) =~= bytes64(e.transid));
    assert(b.subrange(25, 27) =~= bytes16(d as u16));
    assert(b.subrange(27, 29) =~= bytes16(n as u16));
    lemma_key_at(b, 0, e.location);
    lemma_le64(b, 17, e.transid);
    lemma_le16(b, 25, d as u16);
    lemma_le16(b, 27, n as u16);
    assert(b.subrange(30, 30 + n) =~= e.name@);
    assert(b.subrange(30 + n, 30 + n + d) =~= e.data@);
}

impl DirEntry {
    /// Reads one directory entry; bytes after its data are ignored.
    pub fn parse(raw: &[u8]) -> (r: Result<DirEntry, InvalidReason>)
        ensures
            dir_fault(raw@) is Some ==> r == Err::<DirEntry, InvalidReason>(
                dir_fault(raw@).unwrap(),
            ),
            dir_fault(raw@) is None ==> r is Ok && dir_parses_to(raw@, r->Ok_0),
    {
        let len = raw.len();
        if len < DIR_ENTRY_HEADER_SIZE {
            return Err(InvalidReason::TooShort);
        }
        let data_len = get_u16(raw, 25) as usize;
        let name_len = get_u16(raw, 27) as usize;
        if DIR_ENTRY_HEADER_SIZE + name_len + data_len > len {
            return Err(InvalidReason::LengthMismatch);
        }
        let name_end = DIR_ENTRY_HEADER_SIZE + name_len;
        Ok(
            DirEntry {
                location: get_key(raw, 0),
                transid: get_u64(raw, 17),
                child_type: raw[29],
                name: get_range(raw, DIR_ENTRY_HEADER_SIZE, name_end),
                data: get_range(raw, name_end, name_end + data_len),
            },
        )
    }

    /// Appends the entry with its name and data; both lengths must fit the
    /// entry's 16-bit fields.
    pub fn write(&self, out: &mut Vec<u8>)
        requires
            dir_fits(*self),
        ensures
            final(out)@ == old(out)@ + dir_bytes(*self),
    {
        put_key(out, self.location);
        put_u64(out, self.transid);
        put_u16(out, self.data.len() as u16);
        put_u16(out, self.name.len() as u16);
        put_u8(out, self.child_type);
        put_bytes(out, self.name.as_slice());
        put_bytes(out, self.data.as_slice());
        assert(out@ =~= old(out)@ + dir_bytes(*self));
    }
}

/// On-disk size of a file extent record up to its type byte.
pub const EXTENT_DATA_HEADER_SIZE: usize = 21;

/// On-disk size of a file extent record that points at a disk extent.
pub const EXTENT_DATA_REF_SIZE: usize = 53;

pub const FILE_EXTENT_INLINE: u8 = 0;

pub const FILE_EXTENT_REG: u8 = 1;

pub const FILE_EXTENT_PREALLOC: u8 = 2;

/// The part of a file extent record that points at a disk extent.
#[derive(Clone, Copy, Debug, PartialEq, Eq)]
pub struct ExtentRef {
    pub disk_bytenr: u64,
    pub disk_num_bytes: u64,
    pub offset: u64,
    pub num_bytes: u64,
}

/// What follows the type byte of a file extent record.
#[derive(Debug, PartialEq, Eq)]
pub enum ExtentDataBody {
    /// File data stored in the record itself.
    Inline(Vec<u8>),
    /// Data in an extent on disk.
    Regular(ExtentRef),
    /// Space allocated on disk but not yet written.
    Prealloc(ExtentRef),
    /// A type byte of no known kind, with the bytes after it.
    Other(u8, Vec<u8>),
}

/// A file extent: which bytes of a file a range of the file maps to.
#[derive(Debug, PartialEq, Eq)]
pub struct ExtentData {
    pub generation: u64,
    pub ram_bytes: u64,
    pub compression: u8,
    pub encryption: u8,
    pub other_encoding: u16,
    pub body: ExtentDataBody,
}

pub open spec fn parse_extent_ref(b: Seq<u8>) -> ExtentRef {
    ExtentRef {
        disk_bytenr: le64(b, 21),
        disk_num_bytes: le64(b, 29),
        offset: le64(b, 37),
        num_bytes: le64(b, 45),
    }
}

pub open spec fn extent_ref_bytes(v: ExtentRef) -> Seq<u8> {
    bytes64(v.disk_bytenr) + bytes64(v.disk_num_bytes) + bytes64(v.offset) + bytes64(v.num_bytes)
}

/// Why `b` holds no file extent record, if it does not: it ends before the
/// type byte, or a record that points at disk ends before the pointer does.
pub open spec fn extent_data_fault(b: Seq<u8>) -> Option<InvalidReason> {
    if b.len() < EXTENT_DATA_HEADER_SIZE {
        Some(InvalidReason::TooShort)
    } else if (b[20] == FILE_EXTENT_REG || b[20] == FILE_EXTENT_PREALLOC) && b.len()
        < EXTENT_DATA_REF_SIZE {
        Some(InvalidReason::TooShort)
    } else {
        None
    }
}

/// `x` is the file extent record stored at the start of `b`.
pub open spec fn extent_data_parses_to(b: Seq<u8>, x: ExtentData) -> bool {
    let t = b[20];
    &&& x.generation == le64(b, 0)
    &&& x.ram_bytes == le64(b, 8)
    &&& x.compression == b[16]
    &&& x.encryption == b[17]
    &&& x.other_encoding == le16(b, 18)
    &&& match x.body {
        ExtentDataBody::Inline(d) => t == FILE_EXTENT_INLINE && d@ == b.subrange(21, b.len() as int),
        ExtentDataBody::Regular(r) => t == FILE_EXTENT_REG && r == parse_extent_ref(b),
        ExtentDataBody::Prealloc(r) => t == FILE_EXTENT_PREALLOC && r == parse_extent_ref(b),
        ExtentDataBody::Other(u, d) => u == t && t != FILE_EXTENT_INLINE && t != FILE_EXTENT_REG
            && t != FILE_EXTENT_PREALLOC && d@ == b.subrange(21, b.len() as int),
    }
}

pub open spec fn extent_body_bytes(body: ExtentDataBody) -> Seq<u8> {
    match body {
        ExtentDataBody::Inline(d) => seq![FILE_EXTENT_INLINE] + d@,
        ExtentDataBody::Regular(r) => seq![FILE_EXTENT_REG] + extent_ref_bytes(r),
        ExtentDataBody::Prealloc(r) => seq![FILE_EXTENT_PREALLOC] + extent_ref_bytes(r),
        ExtentDataBody::Other(u, d) => seq![u] + d@,
    }
}

pub open spec fn extent_data_bytes(x: ExtentData) -> Seq<u8> {
    bytes64(x.generation) + bytes64(x.ram_bytes) + seq![x.compression, x.encryption] + bytes16(
        x.other_encoding,
    ) + extent_body_bytes(x.body)
}

/// A body of no known kind does not carry a known type byte.
pub open spec fn extent_data_fits(x: ExtentData) -> bool {
    match x.body {
        ExtentDataBody::Other(u, _) => u != FILE_EXTENT_INLINE && u != FILE_EXTENT_REG && u
            != FILE_EXTENT_PREALLOC,
        _ => true,
    }
}

#[verifier::rlimit(40)]
pub proof fn lemma_extent_data_round_trip(x: ExtentData)
    requires
        extent_data_fits(x),
    ensures
        extent_data_fault(extent_data_bytes(x)) is None,
        extent_data_parses_to(extent_data_bytes(x), x),
{
    let b = extent_data_bytes(x);
    let h = bytes64(x.generation) + bytes64(x.ram_bytes) + seq![x.compression, x.encryption]
        + bytes16(x.other_encoding);
    let t = extent_body_bytes(x.body);
    assert(b == h + t);
    assert(h.len() == 20);
    assert(b.subrange(0, 8) =~= bytes64(x.generation));
    assert(b.subrange(8, 16) =~= bytes64(x.ram_bytes));
    assert(b.subrange(18, 20) =~= bytes16(x.other_encoding));
    lemma_le64(b, 0, x.generation);
    lemma_le64(b, 8, x.ram_bytes);
    lemma_le16(b, 18, x.other_encoding);
    assert(b[16] == x.compression && b[17] == x.encryption);
    assert(b[20] == t[0]);
    assert(b.subrange(21, b.len() as int) =~= t.subrange(1, t.len() as int));
    match x.body {
        ExtentDataBody::Inline(d) => {
            assert(t.subrange(1, t.len() as int) =~= d@);
        },
        ExtentDataBody::Other(u, d) => {
            assert(t.subrange(1, t.len() as int) =~= d@);
        },
        ExtentDataBody::Regular(r) => {
            assert(t.subrange(1, t.len() as int) =~= extent_ref_bytes(r));
            lemma_extent_ref_at(b, r);
        },
        ExtentDataBody::Prealloc(r) => {
            assert(t.subrange(1, t.len() as int) =~= extent_ref_bytes(r));
            lemma_extent_ref_at(b, r);
        },
    }
}

proof fn lemma_extent_ref_at(b: Seq<u8>, r: ExtentRef)
    requires
        b.len() >= 53,
        b.subrange(21, 53) == extent_ref_bytes(r),
    ensures
        parse_extent_ref(b) == r,
{
    let w = b.subrange(21, 53);
    assert(w.subrange(0, 8) =~= bytes64(r.disk_bytenr));
    assert(w.subrange(8, 16) =~= bytes64(r.disk_num_bytes));
    assert(w.subrange(16, 24) =~= bytes64(r.offset));
    assert(w.subrange(24, 32) =~= bytes64(r.num_bytes));
    assert(b.subrange(21, 29) =~= w.subrange(0, 8));
    assert(b.subrange(29, 37) =~= w.subrange(8, 16));
    assert(b.subrange(37, 45) =~= w.subrange(16, 24));
    assert(b.subrange(45, 53) =~= w.subrange(24, 32));
    lemma_le64(b, 21, r.disk_bytenr);
    lemma_le64(b, 29, r.disk_num_bytes);
    lemma_le64(b, 37, r.offset);
    lemma_le64(b, 45, r.num_bytes);
}

impl ExtentData {
    /// Reads a file extent record. Inline data and the bytes of an unknown
    /// kind run to the end of the buffer; after a disk pointer, further
    /// bytes are ignored.
    pub fn parse(raw: &[u8]) -> (r: Result<ExtentData, InvalidReason>)
        ensures
            extent_data_fault(raw@) is Some ==> r == Err::<ExtentData, InvalidReason>(
                extent_data_fault(raw@).unwrap(),
            ),
            extent_data_fault(raw@) is None ==> r is Ok && extent_data_parses_to(raw@, r->Ok_0),
    {
        let len = raw.len();
        if len < EXTENT_DATA_HEADER_SIZE {
            return Err(InvalidReason::TooShort);
        }
        let t = raw[20];
        let body = if t == FILE_EXTENT_REG || t == FILE_EXTENT_PREALLOC {
            if len < EXTENT_DATA_REF_SIZE {
                return Err(InvalidReason::TooShort);
            }
            let r = ExtentRef {
                disk_bytenr: get_u64(raw, 21),
                disk_num_bytes: get_u64(raw, 29),
                offset: get_u64(raw, 37),
                num_bytes: get_u64(raw, 45),
            };
            if t == FILE_EXTENT_REG {
                ExtentDataBody::Regular(r)
            } else {
                ExtentDataBody::Prealloc(r)
            }
        } else if t == FILE_EXTENT_INLINE {
            ExtentDataBody::Inline(get_range(raw, EXTENT_DATA_HEADER_SIZE, len))
        } else {
            ExtentDataBody::Other(t, get_range(raw, EXTENT_DATA_HEADER_SIZE, len))
        };
        Ok(
            ExtentData {
                generation: get_u64(raw, 0),
                ram_bytes: get_u64(raw, 8),
                compression: raw[16],
                encryption: raw[17],
                other_encoding: get_u16(raw, 18),
                body,
            },
        )
    }

    /// Appends the record.
    pub fn write(&self, out: &mut Vec<u8>)
        ensures
            final(out)@ == old(out)@ + extent_data_bytes(*self),
    {
        put_u64(out, self.generation);
        put_u64(out, self.ram_bytes);
        put_u8(out, self.compression);
        put_u8(out, self.encryption);
        put_u16(out, self.other_encoding);
        match &self.body {
            ExtentDataBody::Inline(d) => {
                put_u8(out, FILE_EXTENT_INLINE);
                put_bytes(out, d.as_slice());
            },
            ExtentDataBody::Regular(r) => {
                put_u8(out, FILE_EXTENT_REG);
                put_extent_ref(out, *r);
            },
            ExtentDataBody::Prealloc(r) => {
                put_u8(out, FILE_EXTENT_PREALLOC);
                put_extent_ref(out, *r);
            },
            ExtentDataBody::Other(u, d) => {
                put_u8(out, *u);
                put_bytes(out, d.as_slice());
            },
        }
        assert(out@ =~= old(out)@ + extent_data_bytes(*self));
    }
}

fn put_extent_ref(out: &mut Vec<u8>, r: ExtentRef)
    ensures
        final(out)@ == old(out)@ + extent_ref_bytes(r),
{
    put_u64(out, r.disk_bytenr);
    put_u64(out, r.disk_num_bytes);
    put_u64(out, r.offset);
    put_u64(out, r.num_bytes);
    assert(out@ =~= old(out)@ + extent_ref_bytes(r));
}

} // verus!
