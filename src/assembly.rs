//! Assembly of an entry's decompressed buffer from its stored segments.
//!
//! Planning says which bytes to fetch and whether each run must go through
//! the decompressor; assembly places what came back into one buffer.

use vstd::prelude::*;

use crate::errors::{DecompressionError, Error, ModuleError};
use crate::module_block::ModuleBlockEntry;
use crate::module_file::ModuleFileEntry;

verus! {

/// One run of stored bytes of an entry and where its contents land.
#[derive(Debug, Clone, Copy, PartialEq, Eq)]
pub struct Segment {
    /// Offset of the stored bytes after the start of the entry's data.
    pub offset: u64,
    /// Number of stored bytes.
    pub stored_size: u32,
    /// Offset of the contents in the entry's buffer.
    pub target_offset: u32,
    /// Number of bytes the contents fill in the buffer (the size the
    /// decompressor is asked for, for a compressed segment).
    pub target_size: u32,
    /// Whether the stored bytes go through the decompressor.
    pub compressed: bool,
}

/// The segment of an entry without blocks: all its stored bytes, to be
/// decompressed exactly where stored and decompressed sizes differ.
pub open spec fn single_segment(e: ModuleFileEntry) -> Segment {
    Segment {
        offset: 0,
        stored_size: e.total_compressed_size,
        target_offset: 0,
        target_size: e.total_uncompressed_size,
        compressed: e.total_compressed_size != e.total_uncompressed_size,
    }
}

/// Number of stored bytes of the first `k` blocks of a run.
pub open spec fn stored_before(blocks: Seq<ModuleBlockEntry>, first: int, k: int) -> int
    decreases k,
{
    if k <= 0 {
        0
    } else {
        stored_before(blocks, first, k - 1) + blocks[first + k - 1].compressed_size
    }
}

/// The segment of a block that follows `before` stored bytes of its entry.
pub open spec fn block_segment(b: ModuleBlockEntry, before: int) -> Segment {
    Segment {
        offset: before as u64,
        stored_size: b.compressed_size,
        target_offset: b.decompressed_offset,
        target_size: if b.is_compressed { b.decompressed_size } else { b.compressed_size },
        compressed: b.is_compressed,
    }
}

/// The segments of an entry: one for an entry without blocks, else one per
/// block of its run, stored one after another; a negative first block or a
/// run past the end of the block table is refused.
pub open spec fn plan(e: ModuleFileEntry, blocks: Seq<ModuleBlockEntry>) -> Result<Seq<Segment>, Error> {
    if e.block_count == 0 {
        Ok(seq![single_segment(e)])
    } else if e.block_index < 0 {
        Err(Error::ModuleError(ModuleError::NegativeBlockIndex(e.block_index)))
    } else if e.block_index + e.block_count > blocks.len() {
        Err(Error::ModuleError(ModuleError::BlockOutOfRange(e.block_index)))
    } else {
        Ok(Seq::new(e.block_count as nat, |k: int| block_segment(blocks[e.block_index + k], stored_before(blocks, e.block_index as int, k))))
    }
}

/// `buf` with the bytes at `at` replaced by `payload`.
pub open spec fn place(buf: Seq<u8>, at: int, payload: Seq<u8>) -> Seq<u8> {
    buf.subrange(0, at) + payload + buf.subrange(at + payload.len(), buf.len() as int)
}

/// The buffer of `total` zero bytes with the first `k` payloads placed at their segments.
pub open spec fn placed(total: nat, segments: Seq<Segment>, payloads: Seq<Seq<u8>>, k: nat) -> Seq<u8>
    decreases k,
{
    if k == 0 {
        Seq::new(total, |i: int| 0u8)
    } else {
        place(placed(total, segments, payloads, (k - 1) as nat), segments[k - 1].target_offset as int, payloads[k - 1])
    }
}

/// Whether each payload has its segment's size and lands inside the buffer.
pub open spec fn payloads_fit(total: nat, segments: Seq<Segment>, payloads: Seq<Seq<u8>>) -> bool {
    &&& payloads.len() == segments.len()
    &&& forall|k: int| 0 <= k < segments.len() ==> (#[trigger] payloads[k]).len() == segments[k].target_size
    &&& forall|k: int| 0 <= k < segments.len() ==> (#[trigger] segments[k]).target_offset + segments[k].target_size <= total
}

/// What an entry's buffer is, given what was fetched (and decompressed) for
/// each of its segments: the single segment's contents as they came, where
/// they have the entry's size, or the blocks' contents placed into a zeroed
/// buffer of the entry's size.
pub open spec fn assembled(e: ModuleFileEntry, segments: Seq<Segment>, payloads: Seq<Seq<u8>>) -> Result<Seq<u8>, Error> {
    if payloads.len() != segments.len() {
        Err(Error::DecompressionError(DecompressionError::BufferSizeOverflow))
    } else if e.block_count == 0 && segments.len() == 1 {
        if payloads[0].len() == segments[0].target_size {
            Ok(payloads[0])
        } else {
            Err(Error::DecompressionError(DecompressionError::BufferSizeOverflow))
        }
    } else if !payloads_fit(e.total_uncompressed_size as nat, segments, payloads) {
        Err(Error::DecompressionError(DecompressionError::BufferSizeOverflow))
    } else {
        Ok(placed(e.total_uncompressed_size as nat, segments, payloads, segments.len()))
    }
}

impl ModuleFileEntry {
    /// The segments to fetch for this entry, out of the module's block table.
    pub fn plan_segments(&self, blocks: &Vec<ModuleBlockEntry>) -> (r: Result<Vec<Segment>, Error>)
        ensures
            match plan(*self, blocks@) {
                Ok(s) => r matches Ok(v) && v@ == s,
                Err(e) => r == Err::<Vec<Segment>, Error>(e),
            },
    {
        let mut out: Vec<Segment> = Vec::new();
        if self.block_count == 0 {
            out.push(Segment {
                offset: 0,
                stored_size: self.total_compressed_size,
                target_offset: 0,
                target_size: self.total_uncompressed_size,
                compressed: self.total_compressed_size != self.total_uncompressed_size,
            });
            assert(out@ =~= seq![single_segment(*self)]);
            return Ok(out);
        }
        if self.block_index < 0 {
            return Err(Error::ModuleError(ModuleError::NegativeBlockIndex(self.block_index)));
        }
        let first = self.block_index as usize;
        let count = self.block_count as usize;
        if first > blocks.len() || count > blocks.len() - first {
            return Err(Error::ModuleError(ModuleError::BlockOutOfRange(self.block_index)));
        }
        let mut before: u64 = 0;
        let mut k: usize = 0;
        while k < count
            invariant
                first + count <= blocks.len(),
                first == self.block_index,
                count == self.block_count,
                k <= count,
                before == stored_before(blocks@, first as int, k as int),
                before <= k * 0xFFFF_FFFF,
                out@.len() == k,
                forall|j: int| 0 <= j < k ==> #[trigger] out@[j] == block_segment(blocks@[first + j], stored_before(blocks@, first as int, j)),
            decreases count - k,
        {
            let b = blocks[first + k];
            out.push(Segment {
                offset: before,
                stored_size: b.compressed_size,
                target_offset: b.decompressed_offset,
                target_size: if b.is_compressed { b.decompressed_size } else { b.compressed_size },
                compressed: b.is_compressed,
            });
            assert(k * 0xFFFF_FFFF + 0xFFFF_FFFF == (k + 1) * 0xFFFF_FFFF) by (nonlinear_arith);
            assert(k * 0xFFFF_FFFF <= 0xFFFF * 0xFFFF_FFFF) by (nonlinear_arith)
                requires k <= 0xFFFF;
            before = before + b.compressed_size as u64;
            k = k + 1;
        }
        proof {
            let s = plan(*self, blocks@)->Ok_0;
            assert(out@ =~= s);
        }
        Ok(out)
    }
}

/// Places `payload` into `buf` at `at`.
fn place_into(buf: &mut Vec<u8>, at: usize, payload: &Vec<u8>)
    requires
        at + payload.len() <= old(buf).len(),
    ensures
        final(buf)@ == place(old(buf)@, at as int, payload@),
{
    let mut i: usize = 0;
    while i < payload.len()
        invariant
            at + payload.len() <= buf.len(),
            buf@.len() == old(buf)@.len(),
            i <= payload@.len(),
            forall|j: int| 0 <= j < buf@.len() ==> #[trigger] buf@[j] == if at <= j < at + i {
                payload@[j - at]
            } else {
                old(buf)@[j]
            },
        decreases payload@.len() - i,
    {
        buf.set(at + i, payload[i]);
        i = i + 1;
    }
    assert(buf@ =~= place(old(buf)@, at as int, payload@));
}

/// The entry's buffer, from what was fetched (and decompressed) for each of
/// its segments, in the order of `segments`.
pub fn assemble(entry: &ModuleFileEntry, segments: &Vec<Segment>, payloads: Vec<Vec<u8>>) -> (r: Result<Vec<u8>, Error>)
    ensures
        match assembled(*entry, segments@, payloads@.map_values(|p: Vec<u8>| p@)) {
            Ok(b) => r matches Ok(v) && v@ == b,
            Err(e) => r == Err::<Vec<u8>, Error>(e),
        },
{
    let ghost views = payloads@.map_values(|p: Vec<u8>| p@);
    if payloads.len() != segments.len() {
        return Err(Error::DecompressionError(DecompressionError::BufferSizeOverflow));
    }
    assert(views.len() == segments@.len());
    if entry.block_count == 0 && segments.len() == 1 {
        let mut payloads = payloads;
        let only = payloads.pop().unwrap();
        assert(only@ == views[0]);
        if only.len() != segments[0].target_size as usize {
            return Err(Error::DecompressionError(DecompressionError::BufferSizeOverflow));
        }
        return Ok(only);
    }
    let total = entry.total_uncompressed_size as usize;
    let mut k: usize = 0;
    while k < segments.len()
        invariant
            payloads@.len() == segments@.len(),
            views == payloads@.map_values(|p: Vec<u8>| p@),
            views.len() == segments@.len(),
            !(entry.block_count == 0 && segments@.len() == 1),
            total == entry.total_uncompressed_size,
            k <= segments@.len(),
            forall|j: int| 0 <= j < k ==> {
                &&& (#[trigger] views[j]).len() == segments@[j].target_size
                &&& segments@[j].target_offset + segments@[j].target_size <= total
            },
        decreases segments@.len() - k,
    {
        let s = segments[k];
        assert(views[k as int] == payloads@[k as int]@);
        if payloads[k].len() != s.target_size as usize || s.target_offset as usize > total
            || s.target_size as usize > total - s.target_offset as usize {
            assert(!payloads_fit(total as nat, segments@, views)) by {
                let kk = k as int;
                assert(views[kk].len() != segments@[kk].target_size
                    || segments@[kk].target_offset + segments@[kk].target_size > total);
            }
            return Err(Error::DecompressionError(DecompressionError::BufferSizeOverflow));
        }
        assert(views[k as int].len() == segments@[k as int].target_size);
        assert(segments@[k as int].target_offset + segments@[k as int].target_size <= total);
        k = k + 1;
    }
    assert(views.len() == segments@.len());
    assert(forall|j: int| 0 <= j < segments@.len() ==> (#[trigger] views[j]).len() == segments@[j].target_size);
    assert forall|j: int| 0 <= j < segments@.len() implies (#[trigger] segments@[j]).target_offset + segments@[j].target_size <= total as nat by {
        assert(views[j].len() == segments@[j].target_size);
    }
    assert(payloads_fit(total as nat, segments@, views));
    let mut buf: Vec<u8> = Vec::new();
    let mut i: usize = 0;
    while i < total
        invariant
            i <= total,
            buf@ == Seq::new(i as nat, |j: int| 0u8),
        decreases total - i,
    {
        buf.push(0);
        i = i + 1;
        assert(buf@ =~= Seq::new(i as nat, |j: int| 0u8));
    }
    let mut k: usize = 0;
    while k < segments.len()
        invariant
            payloads@.len() == segments@.len(),
            views == payloads@.map_values(|p: Vec<u8>| p@),
            payloads_fit(total as nat, segments@, views),
            k <= segments@.len(),
            buf@ == placed(total as nat, segments@, views, k as nat),
            buf@.len() == total,
        decreases segments@.len() - k,
    {
        let s = segments[k];
        assert(views[k as int] == payloads@[k as int]@);
        place_into(&mut buf, s.target_offset as usize, &payloads[k]);
        k = k + 1;
    }
    Ok(buf)
}

/// An entry without blocks whose stored and decompressed sizes agree is one
/// raw segment of all its bytes, and its buffer is exactly those bytes: the
/// decompressor is not involved.
pub proof fn lemma_single_raw(e: ModuleFileEntry, blocks: Seq<ModuleBlockEntry>, raw: Seq<u8>)
    requires
        e.block_count == 0,
        e.total_compressed_size == e.total_uncompressed_size,
        raw.len() == e.total_compressed_size,
    ensures
        plan(e, blocks) == Ok::<Seq<Segment>, Error>(seq![single_segment(e)]),
        !single_segment(e).compressed,
        single_segment(e).stored_size == e.total_uncompressed_size,
        assembled(e, seq![single_segment(e)], seq![raw]) == Ok::<Seq<u8>, Error>(raw),
{
}

/// An entry without blocks whose stored and decompressed sizes differ is one
/// compressed segment, for which the decompressor is asked for the entry's
/// decompressed size; its output is the buffer, unchanged, where it has that
/// size, and is refused otherwise.
pub proof fn lemma_single_compressed(e: ModuleFileEntry, blocks: Seq<ModuleBlockEntry>, output: Seq<u8>)
    requires
        e.block_count == 0,
        e.total_compressed_size != e.total_uncompressed_size,
    ensures
        plan(e, blocks) == Ok::<Seq<Segment>, Error>(seq![single_segment(e)]),
        single_segment(e).compressed,
        single_segment(e).stored_size == e.total_compressed_size,
        single_segment(e).target_size == e.total_uncompressed_size,
        output.len() == e.total_uncompressed_size ==> assembled(e, seq![single_segment(e)], seq![output])
            == Ok::<Seq<u8>, Error>(output),
        output.len() != e.total_uncompressed_size ==> assembled(e, seq![single_segment(e)], seq![output])
            == Err::<Seq<u8>, Error>(Error::DecompressionError(DecompressionError::BufferSizeOverflow)),
{
}

/// Whether no two segments' target regions overlap.
pub open spec fn disjoint_targets(segments: Seq<Segment>) -> bool {
    forall|i: int, j: int| 0 <= i < segments.len() && 0 <= j < segments.len() && i != j ==>
        #[trigger] segments[i].target_offset + segments[i].target_size <= segments[j].target_offset
        || #[trigger] segments[j].target_offset + segments[j].target_size <= segments[i].target_offset
}

/// What placing a payload does to each byte.
pub proof fn lemma_place_byte(buf: Seq<u8>, at: int, payload: Seq<u8>, x: int)
    requires
        0 <= at,
        at + payload.len() <= buf.len(),
        0 <= x < buf.len(),
    ensures
        place(buf, at, payload).len() == buf.len(),
        place(buf, at, payload)[x] == if at <= x < at + payload.len() { payload[x - at] } else { buf[x] },
{
}

/// Once the payloads of segments with non-overlapping regions are placed,
/// each region holds exactly its payload and every byte outside all regions
/// is still zero: no gap is filled and no segment overwrites another.
pub proof fn lemma_placed_regions(total: nat, segments: Seq<Segment>, payloads: Seq<Seq<u8>>, k: nat)
    requires
        payloads_fit(total, segments, payloads),
        disjoint_targets(segments),
        k <= segments.len(),
    ensures
        placed(total, segments, payloads, k).len() == total,
        forall|i: int, m: int| 0 <= i < k && 0 <= m < segments[i].target_size ==>
            #[trigger] placed(total, segments, payloads, k)[segments[i].target_offset + m] == #[trigger] payloads[i][m],
        forall|x: int| 0 <= x < total && (forall|i: int| 0 <= i < k ==>
            !((#[trigger] segments[i]).target_offset <= x < segments[i].target_offset + segments[i].target_size))
            ==> #[trigger] placed(total, segments, payloads, k)[x] == 0,
    decreases k,
{
    if k > 0 {
        let j = (k - 1) as nat;
        lemma_placed_regions(total, segments, payloads, j);
        let before = placed(total, segments, payloads, j);
        let s = segments[j as int];
        let p = payloads[j as int];
        assert(p.len() == s.target_size);
        assert(s.target_offset + s.target_size <= total);
        assert forall|i: int, m: int| 0 <= i < k && 0 <= m < segments[i].target_size implies
            #[trigger] placed(total, segments, payloads, k)[segments[i].target_offset + m] == #[trigger] payloads[i][m] by {
            assert(segments[i].target_offset + segments[i].target_size <= total);
            lemma_place_byte(before, s.target_offset as int, p, segments[i].target_offset + m);
            if i < j {
                assert(segments[i].target_offset + segments[i].target_size <= s.target_offset
                    || s.target_offset + s.target_size <= segments[i].target_offset);
            }
        }
        assert forall|x: int| 0 <= x < total && (forall|i: int| 0 <= i < k ==>
            !((#[trigger] segments[i]).target_offset <= x < segments[i].target_offset + segments[i].target_size))
            implies #[trigger] placed(total, segments, payloads, k)[x] == 0 by {
            lemma_place_byte(before, s.target_offset as int, p, x);
            assert(!(s.target_offset <= x < s.target_offset + s.target_size));
        }
    }
}

/// An entry assembled from blocks whose target regions do not overlap and
/// whose contents have the sizes planned: its buffer has the entry's size,
/// each region holds exactly its block's contents, and no byte outside the
/// regions is touched.
pub proof fn lemma_assembled_regions(e: ModuleFileEntry, segments: Seq<Segment>, payloads: Seq<Seq<u8>>)
    requires
        e.block_count != 0,
        payloads_fit(e.total_uncompressed_size as nat, segments, payloads),
        disjoint_targets(segments),
    ensures
        assembled(e, segments, payloads) matches Ok(b) && b.len() == e.total_uncompressed_size
            && (forall|i: int, m: int| 0 <= i < segments.len() && 0 <= m < segments[i].target_size ==>
                #[trigger] b[segments[i].target_offset + m] == #[trigger] payloads[i][m])
            && (forall|x: int| 0 <= x < b.len() && (forall|i: int| 0 <= i < segments.len() ==>
                !((#[trigger] segments[i]).target_offset <= x < segments[i].target_offset + segments[i].target_size))
                ==> #[trigger] b[x] == 0),
{
    lemma_placed_regions(e.total_uncompressed_size as nat, segments, payloads, segments.len());
}

} // verus!
