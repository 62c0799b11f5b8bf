//! Zoneset metadata of a tag, read and kept without interpretation.

use vstd::prelude::*;

use crate::errors::Error;
use crate::extensions::{fits, get_i32, get_u32, i32_at, many_end, many_error, u32_at, window, ByteReader, Readable};

verus! {

/// Header of the zoneset section: how many zonesets follow.
#[derive(Debug, Clone, Copy, PartialEq, Eq, Default)]
pub struct TagZonesetHeader {
    /// String identifier of the zoneset name.
    pub string_id: i32,
    /// Number of zonesets that follow.
    pub zoneset_count: u32,
    /// Unknown count, kept as read.
    pub footer_count: u32,
    /// Unknown count, kept as read.
    pub parents: u32,
}

impl Readable for TagZonesetHeader {
    open spec fn error_at(data: Seq<u8>, pos: int) -> Option<Error> {
        if fits(data, pos, 16) { None } else { Some(Error::ReadError) }
    }

    open spec fn end_of(data: Seq<u8>, pos: int) -> int {
        pos + 16
    }

    open spec fn reads_as(data: Seq<u8>, pos: int, v: Self) -> bool {
        let b = window(data, pos, 16);
        v == TagZonesetHeader {
            string_id: i32_at(b, 0),
            zoneset_count: u32_at(b, 4),
            footer_count: u32_at(b, 8),
            parents: u32_at(b, 12),
        }
    }

    fn read(&mut self, reader: &mut ByteReader) -> (r: Result<(), Error>) {
        let b = reader.read_bytes(16)?;
        let b = b.as_slice();
        self.string_id = get_i32(b, 0);
        self.zoneset_count = get_u32(b, 4);
        self.footer_count = get_u32(b, 8);
        self.parents = get_u32(b, 12);
        Ok(())
    }
}

/// Header of one zoneset: how many entries of each list follow.
#[derive(Debug, Clone, Copy, PartialEq, Eq, Default)]
pub struct TagZonesetInstanceHeader {
    /// String identifier of the zoneset.
    pub string_id: i32,
    /// Number of tags.
    pub tag_count: u32,
    /// Number of parent values.
    pub parent_count: u32,
    /// Number of footer tags.
    pub footer_count: u32,
}

/// One tag of a zoneset.
#[derive(Debug, Clone, Copy, PartialEq, Eq, Default)]
pub struct TagZonesetTag {
    /// Global identifier of the tag.
    pub global_id: i32,
    /// String identifier of the zoneset name.
    pub string_id: i32,
}

impl Readable for TagZonesetTag {
    open spec fn error_at(data: Seq<u8>, pos: int) -> Option<Error> {
        if fits(data, pos, 8) { None } else { Some(Error::ReadError) }
    }

    open spec fn end_of(data: Seq<u8>, pos: int) -> int {
        pos + 8
    }

    open spec fn reads_as(data: Seq<u8>, pos: int, v: Self) -> bool {
        v == TagZonesetTag { global_id: i32_at(data, pos), string_id: i32_at(data, pos + 4) }
    }

    fn read(&mut self, reader: &mut ByteReader) -> (r: Result<(), Error>) {
        let ghost data = reader.bytes();
        let ghost pos = reader.at();
        let b = reader.read_bytes(8)?;
        let b = b.as_slice();
        assert(window(b@, 0, 4) =~= window(data, pos, 4));
        assert(window(b@, 4, 4) =~= window(data, pos + 4, 4));
        self.global_id = get_i32(b, 0);
        self.string_id = get_i32(b, 4);
        Ok(())
    }
}

/// A run of `k` zoneset tags from `pos` ends `8 k` bytes on, and reads
/// without error exactly where those bytes are there.
pub proof fn lemma_zoneset_tags(data: Seq<u8>, pos: int, k: nat)
    requires
        0 <= pos <= data.len(),
    ensures
        many_end::<TagZonesetTag>(data, pos, k) == pos + 8 * k,
        forall|i: nat| i <= k ==> #[trigger] many_end::<TagZonesetTag>(data, pos, i) == pos + 8 * i,
        many_error::<TagZonesetTag>(data, pos, k) is None <==> fits(data, pos, 8 * k as int),
    decreases k,
{
    if k > 0 {
        let j = (k - 1) as nat;
        lemma_zoneset_tags(data, pos, j);
        assert(many_end::<TagZonesetTag>(data, pos, j) == pos + 8 * j);
        assert(8 * k == 8 * j + 8);
        if many_error::<TagZonesetTag>(data, pos, j) is None {
            assert(many_error::<TagZonesetTag>(data, pos, k) == TagZonesetTag::error_at(data, pos + 8 * j));
        }
    }
}

/// One zoneset: its header and three lists.
#[derive(Debug, Clone, PartialEq, Eq, Default)]
pub struct TagZoneset {
    /// How many entries of each list follow.
    pub header: TagZonesetInstanceHeader,
    /// Tags of the zoneset.
    pub tags: Vec<TagZonesetTag>,
    /// Footer tags of the zoneset.
    pub footer_tags: Vec<TagZonesetTag>,
    /// Parent values, of unknown use.
    pub parents: Vec<i32>,
}

/// The header of a zoneset at `pos`.
pub open spec fn zoneset_header_at(data: Seq<u8>, pos: int) -> TagZonesetInstanceHeader {
    TagZonesetInstanceHeader {
        string_id: i32_at(data, pos),
        tag_count: u32_at(data, pos + 4),
        parent_count: u32_at(data, pos + 8),
        footer_count: u32_at(data, pos + 12),
    }
}

/// The number of bytes a zoneset with this header takes.
pub open spec fn zoneset_size(h: TagZonesetInstanceHeader) -> int {
    16 + 8 * h.tag_count + 8 * h.footer_count + 4 * h.parent_count
}

impl Readable for TagZoneset {
    open spec fn error_at(data: Seq<u8>, pos: int) -> Option<Error> {
        if fits(data, pos, 16) && fits(data, pos, zoneset_size(zoneset_header_at(data, pos))) {
            None
        } else {
            Some(Error::ReadError)
        }
    }

    open spec fn end_of(data: Seq<u8>, pos: int) -> int {
        pos + zoneset_size(zoneset_header_at(data, pos))
    }

    open spec fn reads_as(data: Seq<u8>, pos: int, v: Self) -> bool {
        let h = zoneset_header_at(data, pos);
        let footer_at = pos + 16 + 8 * h.tag_count;
        let parents_at = footer_at + 8 * h.footer_count;
        &&& v.header == h
        &&& v.tags@.len() == h.tag_count
        &&& (forall|i: int| 0 <= i < h.tag_count ==> v.tags@[i] == TagZonesetTag {
            global_id: i32_at(data, pos + 16 + 8 * i),
            string_id: i32_at(data, pos + 20 + 8 * i),
        })
        &&& v.footer_tags@.len() == h.footer_count
        &&& (forall|i: int| 0 <= i < h.footer_count ==> v.footer_tags@[i] == TagZonesetTag {
            global_id: i32_at(data, footer_at + 8 * i),
            string_id: i32_at(data, footer_at + 4 + 8 * i),
        })
        &&& v.parents@.len() == h.parent_count
        &&& (forall|i: int| 0 <= i < h.parent_count ==> v.parents@[i] == i32_at(data, parents_at + 4 * i))
    }

    fn read(&mut self, reader: &mut ByteReader) -> (r: Result<(), Error>) {
        let ghost data = reader.bytes();
        let ghost pos = reader.at();
        let b = reader.read_bytes(16)?;
        let b = b.as_slice();
        assert(window(b@, 0, 4) =~= window(data, pos, 4));
        assert(window(b@, 4, 4) =~= window(data, pos + 4, 4));
        assert(window(b@, 8, 4) =~= window(data, pos + 8, 4));
        assert(window(b@, 12, 4) =~= window(data, pos + 12, 4));
        let header = TagZonesetInstanceHeader {
            string_id: get_i32(b, 0),
            tag_count: get_u32(b, 4),
            parent_count: get_u32(b, 8),
            footer_count: get_u32(b, 12),
        };
        let ghost h = header;
        let size = 16 + 8 * (header.tag_count as u64) + 8 * (header.footer_count as u64) + 4 * (header.parent_count as u64);
        reader.seek(reader.stream_position() - 16);
        if !reader.can_read(size) {
            return Err(Error::ReadError);
        }
        reader.seek(reader.stream_position() + 16);
        proof {
            lemma_zoneset_tags(data, pos + 16, h.tag_count as nat);
            lemma_zoneset_tags(data, pos + 16 + 8 * h.tag_count, h.footer_count as nat);
        }
        let tags = reader.read_enumerable::<TagZonesetTag>(header.tag_count as u64)?;
        let footer_tags = reader.read_enumerable::<TagZonesetTag>(header.footer_count as u64)?;
        let ghost parents_at = pos + 16 + 8 * h.tag_count + 8 * h.footer_count;
        let mut parents: Vec<i32> = Vec::new();
        let mut i: u32 = 0;
        while i < header.parent_count
            invariant
                reader.bytes() == data,
                header == h,
                data == old(reader).bytes(),
                fits(data, parents_at, 4 * h.parent_count),
                i <= h.parent_count,
                reader.at() == parents_at + 4 * i,
                parents@.len() == i,
                forall|j: int| 0 <= j < i ==> parents@[j] == i32_at(data, parents_at + 4 * j),
            decreases h.parent_count - i,
        {
            let p = reader.read_i32()?;
            parents.push(p);
            i = i + 1;
        }
        assert(header == zoneset_header_at(data, pos));
        assert forall|j: int| 0 <= j < h.tag_count implies tags@[j] == (TagZonesetTag {
            global_id: i32_at(data, pos + 16 + 8 * j),
            string_id: i32_at(data, pos + 20 + 8 * j),
        }) by {
            assert(many_end::<TagZonesetTag>(data, pos + 16, j as nat) == pos + 16 + 8 * j);
        }
        assert forall|j: int| 0 <= j < h.footer_count implies footer_tags@[j] == (TagZonesetTag {
            global_id: i32_at(data, pos + 16 + 8 * h.tag_count + 8 * j),
            string_id: i32_at(data, pos + 16 + 8 * h.tag_count + 4 + 8 * j),
        }) by {
            assert(many_end::<TagZonesetTag>(data, pos + 16 + 8 * h.tag_count, j as nat) == pos + 16 + 8 * h.tag_count + 8 * j);
        }
        self.header = header;
        self.tags = tags;
        self.footer_tags = footer_tags;
        self.parents = parents;
        Ok(())
    }
}

} // verus!
