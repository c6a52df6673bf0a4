//! One record of a tree leaf, decoded by its key's type tag, and encoded back.
use vstd::prelude::*;
use crate::bytes::get_range;
use crate::item::{
    chunk_bytes, chunk_fault, chunk_parses_to, dev_bytes, dir_bytes, dir_fault, dir_fits,
    dir_parses_to, extent_data_bytes, extent_data_fault, extent_data_fits, extent_data_parses_to,
    extent_item_bytes, inode_bytes, internal_bytes, lemma_chunk_round_trip, lemma_dev_round_trip,
    lemma_dir_round_trip, lemma_extent_data_round_trip, lemma_extent_item_round_trip,
    lemma_inode_round_trip, lemma_internal_round_trip, parse_dev, parse_extent_item, parse_inode,
    parse_internal, ChunkItem, DevItem, DirEntry, ExtentData, ExtentItem, InodeItem, InternalItem,
    InvalidReason, Key, CHUNK_ITEM_KEY, DEV_ITEM_KEY, DEV_ITEM_SIZE, DIR_INDEX_KEY, DIR_ITEM_KEY,
    EXTENT_DATA_KEY, EXTENT_ITEM_KEY, EXTENT_ITEM_SIZE, INODE_ITEM_KEY, INODE_ITEM_SIZE,
};

verus! {

/// A record whose type tag is not one that is decoded; its bytes are kept
/// as they were.
#[derive(Debug, PartialEq, Eq)]
pub struct UnknownItem {
    pub item_type: u8,
    pub data: Vec<u8>,
}

/// A record of a decoded type whose bytes could not be read, with its bytes
/// and the reason.
#[derive(Debug, PartialEq, Eq)]
pub struct InvalidItem {
    pub item_type: u8,
    pub data: Vec<u8>,
    pub reason: InvalidReason,
}

#[derive(Debug, PartialEq, Eq)]
pub enum LeafItem {
    ChunkItem(ChunkItem),
    DevItem(DevItem),
    DirIndex(DirEntry),
    DirItem(DirEntry),
    ExtentData(ExtentData),
    ExtentItem(ExtentItem),
    InodeItem(InodeItem),
    InternalItem(InternalItem),
    UnknownItem(UnknownItem),
    InvalidItem(InvalidItem),
}

/// Why a value cannot be encoded.
#[derive(Clone, Copy, Debug, PartialEq, Eq, Structural)]
pub enum EncodeError {
    /// An invalid record was never a record; it has no encoding.
    InvalidItem,
    /// A length does not fit its on-disk field, a body of unknown kind
    /// carries a known type byte, or an unknown record carries a tag that
    /// is decoded.
    Unrepresentable,
}

/// The type tags that `decode` reads into a typed record.
pub open spec fn is_decoded_tag(t: u8) -> bool {
    t == INODE_ITEM_KEY || t == DIR_ITEM_KEY || t == DIR_INDEX_KEY || t == EXTENT_DATA_KEY || t
        == EXTENT_ITEM_KEY || t == DEV_ITEM_KEY || t == CHUNK_ITEM_KEY
}

/// `r` keeps tag `t` and bytes `b` as an invalid record for `reason`.
pub open spec fn is_invalid(r: LeafItem, t: u8, b: Seq<u8>, reason: InvalidReason) -> bool {
    match r {
        LeafItem::InvalidItem(i) => i.item_type == t && i.data@ == b && i.reason == reason,
        _ => false,
    }
}

/// `r` is what the bytes `b` of a record with type tag `t` decode to.
pub open spec fn decodes_to(t: u8, b: Seq<u8>, r: LeafItem) -> bool {
    if t == INODE_ITEM_KEY {
        if b.len() < INODE_ITEM_SIZE {
            is_invalid(r, t, b, InvalidReason::TooShort)
        } else {
            r == LeafItem::InodeItem(parse_inode(b))
        }
    } else if t == DEV_ITEM_KEY {
        if b.len() < DEV_ITEM_SIZE {
            is_invalid(r, t, b, InvalidReason::TooShort)
        } else {
            r == LeafItem::DevItem(parse_dev(b))
        }
    } else if t == EXTENT_ITEM_KEY {
        if b.len() < EXTENT_ITEM_SIZE {
            is_invalid(r, t, b, InvalidReason::TooShort)
        } else {
            r == LeafItem::ExtentItem(parse_extent_item(b))
        }
    } else if t == CHUNK_ITEM_KEY {
        match chunk_fault(b) {
            Some(reason) => is_invalid(r, t, b, reason),
            None => r is ChunkItem && chunk_parses_to(b, r->ChunkItem_0),
        }
    } else if t == DIR_ITEM_KEY {
        match dir_fault(b) {
            Some(reason) => is_invalid(r, t, b, reason),
            None => r is DirItem && dir_parses_to(b, r->DirItem_0),
        }
    } else if t == DIR_INDEX_KEY {
        match dir_fault(b) {
            Some(reason) => is_invalid(r, t, b, reason),
            None => r is DirIndex && dir_parses_to(b, r->DirIndex_0),
        }
    } else if t == EXTENT_DATA_KEY {
        match extent_data_fault(b) {
            Some(reason) => is_invalid(r, t, b, reason),
            None => r is ExtentData && extent_data_parses_to(b, r->ExtentData_0),
        }
    } else {
        r is UnknownItem && r->UnknownItem_0.item_type == t && r->UnknownItem_0.data@ == b
    }
}

fn invalid(t: u8, raw: &[u8], reason: InvalidReason) -> (r: LeafItem)
    ensures
        is_invalid(r, t, raw@, reason),
{
    let data = get_range(raw, 0, raw.len());
    assert(data@ =~= raw@);
    LeafItem::InvalidItem(InvalidItem { item_type: t, data, reason })
}

/// Decodes the bytes of one leaf record by the type tag of its key. A tag
/// that is not decoded gives an unknown record with the bytes unchanged; a
/// payload that cannot be read gives an invalid record with the reason.
pub fn decode(key: &Key, raw: &[u8]) -> (r: LeafItem)
    ensures
        decodes_to(key.item_type, raw@, r),
{
    proof {
        assert(raw@.subrange(0, raw@.len() as int) =~= raw@);
    }
    let t = key.item_type;
    if t == INODE_ITEM_KEY {
        match InodeItem::parse(raw) {
            Ok(v) => LeafItem::InodeItem(v),
            Err(e) => invalid(t, raw, e),
        }
    } else if t == DEV_ITEM_KEY {
        match DevItem::parse(raw) {
            Ok(v) => LeafItem::DevItem(v),
            Err(e) => invalid(t, raw, e),
        }
    } else if t == EXTENT_ITEM_KEY {
        match ExtentItem::parse(raw) {
            Ok(v) => LeafItem::ExtentItem(v),
            Err(e) => invalid(t, raw, e),
        }
    } else if t == CHUNK_ITEM_KEY {
        match ChunkItem::parse(raw) {
            Ok(v) => LeafItem::ChunkItem(v),
            Err(e) => invalid(t, raw, e),
        }
    } else if t == DIR_ITEM_KEY {
        match DirEntry::parse(raw) {
            Ok(v) => LeafItem::DirItem(v),
            Err(e) => invalid(t, raw, e),
        }
    } else if t == DIR_INDEX_KEY {
        match DirEntry::parse(raw) {
            Ok(v) => LeafItem::DirIndex(v),
            Err(e) => invalid(t, raw, e),
        }
    } else if t == EXTENT_DATA_KEY {
        match ExtentData::parse(raw) {
            Ok(v) => LeafItem::ExtentData(v),
            Err(e) => invalid(t, raw, e),
        }
    } else {
        LeafItem::UnknownItem(UnknownItem { item_type: t, data: get_range(raw, 0, raw.len()) })
    }
}

/// The type tag that a record of this kind is stored under; a pointer of
/// an interior node has none.
pub open spec fn tag_of(v: LeafItem) -> Option<u8> {
    match v {
        LeafItem::ChunkItem(_) => Some(CHUNK_ITEM_KEY),
        LeafItem::DevItem(_) => Some(DEV_ITEM_KEY),
        LeafItem::DirIndex(_) => Some(DIR_INDEX_KEY),
        LeafItem::DirItem(_) => Some(DIR_ITEM_KEY),
        LeafItem::ExtentData(_) => Some(EXTENT_DATA_KEY),
        LeafItem::ExtentItem(_) => Some(EXTENT_ITEM_KEY),
        LeafItem::InodeItem(_) => Some(INODE_ITEM_KEY),
        LeafItem::InternalItem(_) => None,
        LeafItem::UnknownItem(u) => Some(u.item_type),
        LeafItem::InvalidItem(i) => Some(i.item_type),
    }
}

/// Whether the value has an encoding: it is not invalid, every length fits
/// its field, and it is a value that decoding can give.
pub open spec fn encodable(v: LeafItem) -> bool {
    match v {
        LeafItem::ChunkItem(c) => c.stripes@.len() <= u16::MAX,
        LeafItem::DirIndex(e) => dir_fits(e),
        LeafItem::DirItem(e) => dir_fits(e),
        LeafItem::ExtentData(x) => extent_data_fits(x),
        LeafItem::UnknownItem(u) => !is_decoded_tag(u.item_type),
        LeafItem::InvalidItem(_) => false,
        _ => true,
    }
}

/// The on-disk bytes of an encodable value.
pub open spec fn item_bytes(v: LeafItem) -> Seq<u8> {
    match v {
        LeafItem::ChunkItem(c) => chunk_bytes(c),
        LeafItem::DevItem(d) => dev_bytes(d),
        LeafItem::DirIndex(e) => dir_bytes(e),
        LeafItem::DirItem(e) => dir_bytes(e),
        LeafItem::ExtentData(x) => extent_data_bytes(x),
        LeafItem::ExtentItem(x) => extent_item_bytes(x),
        LeafItem::InodeItem(i) => inode_bytes(i),
        LeafItem::InternalItem(p) => internal_bytes(p),
        LeafItem::UnknownItem(u) => u.data@,
        LeafItem::InvalidItem(i) => i.data@,
    }
}

/// Encodes a record as the bytes that store it. An invalid record is
/// refused, and so is a value that has no encoding.
pub fn encode(item: &LeafItem) -> (r: Result<Vec<u8>, EncodeError>)
    ensures
        encodable(*item) ==> r is Ok && r->Ok_0@ == item_bytes(*item),
        item is InvalidItem ==> r == Err::<Vec<u8>, EncodeError>(EncodeError::InvalidItem),
        !encodable(*item) && !(item is InvalidItem) ==> r == Err::<Vec<u8>, EncodeError>(
            EncodeError::Unrepresentable,
        ),
{
    let mut out: Vec<u8> = Vec::new();
    match item {
        LeafItem::ChunkItem(c) => {
            if c.stripes.len() > 0xffff {
                return Err(EncodeError::Unrepresentable);
            }
            c.write(&mut out);
        },
        LeafItem::DevItem(d) => d.write(&mut out),
        LeafItem::DirIndex(e) => {
            if e.name.len() > 0xffff || e.data.len() > 0xffff {
                return Err(EncodeError::Unrepresentable);
            }
            e.write(&mut out);
        },
        LeafItem::DirItem(e) => {
            if e.name.len() > 0xffff || e.data.len() > 0xffff {
                return Err(EncodeError::Unrepresentable);
            }
            e.write(&mut out);
        },
        LeafItem::ExtentData(x) => {
            if let crate::item::ExtentDataBody::Other(u, _) = &x.body {
                if *u <= crate::item::FILE_EXTENT_PREALLOC {
                    return Err(EncodeError::Unrepresentable);
                }
            }
            x.write(&mut out);
        },
        LeafItem::ExtentItem(x) => x.write(&mut out),
        LeafItem::InodeItem(i) => i.write(&mut out),
        LeafItem::InternalItem(p) => p.write(&mut out),
        LeafItem::UnknownItem(u) => {
            let t = u.item_type;
            if t == INODE_ITEM_KEY || t == DIR_ITEM_KEY || t == DIR_INDEX_KEY || t
                == EXTENT_DATA_KEY || t == EXTENT_ITEM_KEY || t == DEV_ITEM_KEY || t
                == CHUNK_ITEM_KEY {
                return Err(EncodeError::Unrepresentable);
            }
            crate::bytes::put_bytes(&mut out, u.data.as_slice());
        },
        LeafItem::InvalidItem(_) => {
            return Err(EncodeError::InvalidItem);
        },
    }
    proof {
        assert(out@ =~= item_bytes(*item));
    }
    Ok(out)
}

/// Decoding the encoding of a value gives the value back: under the value's
/// own tag for a leaf record, and by `InternalItem::parse` for a pointer of
/// an interior node.
pub proof fn lemma_decode_encode(v: LeafItem)
    requires
        encodable(v),
    ensures
        tag_of(v) is Some ==> decodes_to(tag_of(v).unwrap(), item_bytes(v), v),
        v is InternalItem ==> item_bytes(v).len() >= crate::item::INTERNAL_ITEM_SIZE
            && parse_internal(item_bytes(v)) == v->InternalItem_0,
{
    match v {
        LeafItem::ChunkItem(c) => lemma_chunk_round_trip(c),
        LeafItem::DevItem(d) => lemma_dev_round_trip(d),
        LeafItem::DirIndex(e) => lemma_dir_round_trip(e),
        LeafItem::DirItem(e) => lemma_dir_round_trip(e),
        LeafItem::ExtentData(x) => lemma_extent_data_round_trip(x),
        LeafItem::ExtentItem(x) => lemma_extent_item_round_trip(x),
        LeafItem::InodeItem(i) => lemma_inode_round_trip(i),
        LeafItem::InternalItem(p) => lemma_internal_round_trip(p),
        _ => {},
    }
}

/// An empty payload under any decoded tag is an invalid record, too short.
pub proof fn lemma_decode_empty(t: u8, r: LeafItem)
    requires
        is_decoded_tag(t),
        decodes_to(t, Seq::empty(), r),
    ensures
        is_invalid(r, t, Seq::empty(), InvalidReason::TooShort),
{
}

/// Under a tag that is not decoded, any bytes decode to an unknown record
/// that holds them unchanged, and that record encodes to the same bytes.
pub proof fn lemma_unknown_round_trip(t: u8, b: Seq<u8>, r: LeafItem)
    requires
        !is_decoded_tag(t),
        decodes_to(t, b, r),
    ensures
        r is UnknownItem,
        r->UnknownItem_0.item_type == t,
        r->UnknownItem_0.data@ == b,
        encodable(r),
        item_bytes(r) == b,
{
}

} // verus!
