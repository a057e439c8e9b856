//! The chunk slab: blocks of a fixed stride reserved first-fit in large chunks of memory.
//!
//! The memory itself is the caller's. The slab keeps the books: which blocks of which chunk
//! are reserved, where the next one goes, and when a chunk has to be added or can be freed.
use vstd::prelude::*;
use crate::error::Error;
use crate::error::MemoryKind;

verus! {

/// Stride of the blocks: every block starts and ends at a multiple of it.
pub const BLOCK_ALIGN: u64 = 256;

/// Grain of the chunks: the length of every chunk is a multiple of it.
pub const CHUNK_GRAIN: u64 = 0x1000_0000;

/// The least multiple of `align` that is not below `x`.
pub open spec fn round_up(x: int, align: int) -> int {
    if x % align == 0 {
        x
    } else {
        x - x % align + align
    }
}

/// The greatest multiple of `align` that is not above `x`.
pub open spec fn round_down(x: int, align: int) -> int {
    x - x % align
}

/// `x` rounded down to a multiple of `align`.
pub fn aligned_floor(x: usize, align: usize) -> (r: usize)
    requires
        align > 0,
    ensures
        r == round_down(x as int, align as int),
        r <= x < r + align,
        r % align == 0,
{
    proof {
        vstd::arithmetic::div_mod::lemma_mod_decreases(x as nat, align as nat);
    }
    let r = x - x % align;
    proof {
        vstd::arithmetic::div_mod::lemma_fundamental_div_mod(x as int, align as int);
        vstd::arithmetic::div_mod::lemma_mod_multiples_basic(x as int / align as int, align as int);
        assert(r as int == (x as int / align as int) * align as int) by (nonlinear_arith)
            requires
                r == x - x % align,
                x as int == align as int * (x as int / align as int) + x as int % align as int,
        ;
    }
    r
}

/// `x` rounded up to a multiple of `align`.
pub fn aligned_ceil(x: usize, align: usize) -> (r: usize)
    requires
        align > 0,
        round_up(x as int, align as int) <= usize::MAX,
    ensures
        r == round_up(x as int, align as int),
        x <= r < x + align,
        r % align == 0,
{
    if x % align != 0 {
        let f = aligned_floor(x, align);
        proof {
            vstd::arithmetic::div_mod::lemma_mod_add_multiples_vanish(f as int, align as int);
        }
        f + align
    } else {
        x
    }
}

/// `x` rounded up to a multiple of `align`, if that fits.
pub fn checked_round_up(x: u64, align: u64) -> (r: Option<u64>)
    requires
        align > 0,
    ensures
        r == if round_up(x as int, align as int) <= u64::MAX {
            Some(round_up(x as int, align as int) as u64)
        } else {
            None
        },
        r is Some ==> x <= r->0 < x + align && r->0 % align == 0,
{
    let m = x % align;
    proof {
        vstd::arithmetic::div_mod::lemma_mod_decreases(x as nat, align as nat);
    }
    if m == 0 {
        Some(x)
    } else {
        let f = x - m;
        proof {
            vstd::arithmetic::div_mod::lemma_fundamental_div_mod(x as int, align as int);
            vstd::arithmetic::div_mod::lemma_mod_multiples_basic(
                x as int / align as int + 1,
                align as int,
            );
            assert(f as int + align as int == (x as int / align as int + 1) * align as int)
                by (nonlinear_arith)
                requires
                    f == x - x % align,
                    x as int == align as int * (x as int / align as int) + x as int % align as int,
            ;
        }
        if f > u64::MAX - align {
            None
        } else {
            Some(f + align)
        }
    }
}

/// A range of bytes of a chunk, from `start` up to `end`.
#[derive(Clone, Copy, Debug, PartialEq, Eq, Structural)]
pub struct Block {
    pub start: u64,
    pub end: u64,
}

impl Block {
    /// Number of bytes in the block.
    pub open spec fn spec_len(self) -> int {
        self.end - self.start
    }

    /// Whether byte `b` of the chunk is one of the block.
    pub open spec fn holds(self, b: int) -> bool {
        self.start <= b < self.end
    }

    /// The block is not empty, lies within `len` bytes, and starts and ends on the stride.
    pub open spec fn fits(self, len: int) -> bool {
        &&& self.start < self.end <= len
        &&& self.start % BLOCK_ALIGN == 0
        &&& self.end % BLOCK_ALIGN == 0
    }

    /// Number of bytes in the block.
    pub fn len(&self) -> (r: u64)
        requires
            self.start <= self.end,
        ensures
            r == self.spec_len(),
    {
        self.end - self.start
    }
}

/// The blocks lie within `len` bytes on the stride, in order and apart from each other.
pub open spec fn blocks_wf(blocks: Seq<Block>, len: int) -> bool {
    &&& forall|i: int| 0 <= i < blocks.len() ==> (#[trigger] blocks[i]).fits(len)
    &&& forall|i: int, j: int|
        0 <= i < j < blocks.len() ==> (#[trigger] blocks[i]).end <= (#[trigger] blocks[j]).start
}

/// Where the gap before block `k` starts: at the end of the block before, or at 0.
pub open spec fn gap_start(blocks: Seq<Block>, k: int) -> int {
    if k == 0 {
        0
    } else {
        blocks[k - 1].end as int
    }
}

/// Where the gap before block `k` ends: at the start of block `k`, or at the chunk's end.
pub open spec fn gap_end(blocks: Seq<Block>, len: int, k: int) -> int {
    if k < blocks.len() {
        blocks[k].start as int
    } else {
        len
    }
}

/// The first gap from gap `k` on that has room for `need` bytes, if one has.
pub open spec fn first_fit(blocks: Seq<Block>, len: int, need: int, k: int) -> Option<int>
    decreases blocks.len() + 1 - k,
{
    if k < 0 || k > blocks.len() {
        None
    } else if gap_start(blocks, k) + need <= gap_end(blocks, len, k) {
        Some(k)
    } else {
        first_fit(blocks, len, need, k + 1)
    }
}

/// The block that reserving `need` bytes in gap `k` gives.
pub open spec fn block_in_gap(blocks: Seq<Block>, need: int, k: int) -> Block {
    Block { start: gap_start(blocks, k) as u64, end: (gap_start(blocks, k) + need) as u64 }
}

/// The first index from `k` on of a block that starts at `start`, if there is one.
pub open spec fn index_of_start(blocks: Seq<Block>, start: u64, k: int) -> Option<int>
    decreases blocks.len() - k,
{
    if k < 0 || k >= blocks.len() {
        None
    } else if blocks[k].start == start {
        Some(k)
    } else {
        index_of_start(blocks, start, k + 1)
    }
}

/// The books of one chunk: its length and its reserved blocks in order of their start.
#[derive(Debug)]
pub struct Chunk {
    pub len: u64,
    pub blocks: Vec<Block>,
}

/// What a `Chunk` holds.
pub struct ChunkView {
    pub len: u64,
    pub blocks: Seq<Block>,
}

impl View for Chunk {
    type V = ChunkView;

    open spec fn view(&self) -> ChunkView {
        ChunkView { len: self.len, blocks: self.blocks@ }
    }
}

impl DeepView for Chunk {
    type V = ChunkView;

    open spec fn deep_view(&self) -> ChunkView {
        self@
    }
}

impl ChunkView {
    /// The chunk's invariant: its length is on the stride, and its blocks lie within it on
    /// the stride, in order and apart from each other.
    pub open spec fn wf(self) -> bool {
        &&& self.len % BLOCK_ALIGN == 0
        &&& blocks_wf(self.blocks, self.len as int)
    }

    /// What reserving `len` bytes gives: the gap that the block goes to, if one has room.
    pub open spec fn spec_alloc(self, len: u64) -> Option<int> {
        if len == 0 {
            None
        } else {
            first_fit(self.blocks, self.len as int, round_up(len as int, BLOCK_ALIGN as int), 0)
        }
    }
}

impl Chunk {
    /// The chunk's invariant.
    pub open spec fn wf(&self) -> bool {
        self@.wf()
    }

    /// A chunk of `len` bytes with nothing reserved.
    pub fn new(len: u64) -> (r: Chunk)
        requires
            len % BLOCK_ALIGN == 0,
        ensures
            r.wf(),
            r.len == len,
            r.blocks@.len() == 0,
    {
        Chunk { len, blocks: Vec::new() }
    }

    /// Reserves `len` bytes, rounded up to the stride, in the first gap that has room, and
    /// keeps the blocks in order. Reserves nothing where no gap has room, or `len` is 0.
    pub fn allocate(&mut self, len: u64) -> (r: Option<Block>)
        requires
            old(self).wf(),
        ensures
            final(self).wf(),
            final(self).len == old(self).len,
            r is Some ==> r->0.fits(old(self).len as int) && r->0.spec_len() == round_up(
                len as int,
                BLOCK_ALIGN as int,
            ),
            match old(self)@.spec_alloc(len) {
                Some(k) => {
                    &&& r == Some(
                        block_in_gap(old(self).blocks@, round_up(len as int, BLOCK_ALIGN as int), k),
                    )
                    &&& final(self).blocks@ == old(self).blocks@.insert(k, r->0)
                },
                None => r is None && final(self).blocks@ == old(self).blocks@,
            },
    {
        if len == 0 {
            return None;
        }
        let need: u64 = match checked_round_up(len, BLOCK_ALIGN) {
            Some(n) => n,
            None => {
                proof {
                    lemma_no_room(self.blocks@, self.len as int, round_up(len as int, BLOCK_ALIGN as int), 0);
                }
                return None;
            },
        };
        let ghost blocks = self.blocks@;
        let ghost total = self.len as int;
        let mut start: u64 = 0;
        let mut k: usize = 0;
        while k < self.blocks.len()
            invariant
                k <= self.blocks.len(),
                self.blocks@ == blocks,
                self.len == total,
                blocks_wf(blocks, total),
                total % BLOCK_ALIGN as int == 0,
                0 < need,
                need % BLOCK_ALIGN == 0,
                need == round_up(len as int, BLOCK_ALIGN as int),
                len > 0,
                blocks == old(self).blocks@,
                total == old(self).len,
                start == gap_start(blocks, k as int),
                start <= total,
                start % BLOCK_ALIGN == 0,
                first_fit(blocks, total, need as int, 0) == first_fit(blocks, total, need as int, k as int),
            decreases self.blocks.len() - k,
        {
            let next = self.blocks[k];
            assert(blocks[k as int].fits(total));
            if k > 0 {
                assert(blocks[k - 1].end <= blocks[k as int].start);
            }
            if need <= next.start - start {
                let block = Block { start, end: start + need };
                self.blocks.insert(k, block);
                proof {
                    lemma_insert_wf(blocks, total, k as int, block);
                }
                return Some(block);
            }
            start = next.end;
            k = k + 1;
        }
        if need <= self.len - start {
            let block = Block { start, end: start + need };
            self.blocks.push(block);
            proof {
                assert(self.blocks@ =~= blocks.insert(k as int, block));
                lemma_insert_wf(blocks, total, k as int, block);
            }
            Some(block)
        } else {
            assert(first_fit(blocks, total, need as int, k as int + 1) is None);
            None
        }
    }

    /// Gives back the block that starts at `start`: it leaves the list. Nothing changes where
    /// no block starts there.
    pub fn free(&mut self, start: u64) -> (r: bool)
        requires
            old(self).wf(),
        ensures
            final(self).wf(),
            final(self).len == old(self).len,
            match index_of_start(old(self).blocks@, start, 0) {
                Some(k) => r && final(self).blocks@ == old(self).blocks@.remove(k),
                None => !r && final(self).blocks@ == old(self).blocks@,
            },
    {
        let ghost blocks = self.blocks@;
        let mut k: usize = 0;
        while k < self.blocks.len()
            invariant
                k <= self.blocks.len(),
                self.blocks@ == blocks,
                blocks == old(self).blocks@,
                self.len == old(self).len,
                old(self).wf(),
                index_of_start(blocks, start, 0) == index_of_start(blocks, start, k as int),
            decreases self.blocks.len() - k,
        {
            if self.blocks[k].start == start {
                self.blocks.remove(k);
                proof {
                    lemma_remove_wf(blocks, self.len as int, k as int);
                }
                return true;
            }
            k = k + 1;
        }
        false
    }
}

/// A block put into a gap that has room for it keeps the blocks well formed.
pub proof fn lemma_insert_wf(blocks: Seq<Block>, len: int, k: int, block: Block)
    requires
        blocks_wf(blocks, len),
        0 <= k <= blocks.len(),
        block.fits(len),
        block.start == gap_start(blocks, k),
        block.end <= gap_end(blocks, len, k),
    ensures
        blocks_wf(blocks.insert(k, block), len),
{
    let after = blocks.insert(k, block);
    assert forall|i: int| 0 <= i < after.len() implies (#[trigger] after[i]).fits(len) by {
        if i < k {
            assert(after[i] == blocks[i]);
        } else if i > k {
            assert(after[i] == blocks[i - 1]);
        }
    }
    assert forall|i: int, j: int| 0 <= i < j < after.len() implies (#[trigger] after[i]).end <= (
    #[trigger] after[j]).start by {
        let a = if i < k { blocks[i] } else if i == k { block } else { blocks[i - 1] };
        let b = if j < k { blocks[j] } else if j == k { block } else { blocks[j - 1] };
        assert(after[i] == a && after[j] == b);
        if i < k && j == k {
            if i < k - 1 {
                assert(blocks[i].end <= blocks[k - 1].start);
                assert(blocks[k - 1].fits(len));
            }
        } else if i == k && j > k {
            if j - 1 > k {
                assert(blocks[k].end <= blocks[j - 1].start);
                assert(blocks[k].fits(len));
            }
        } else if i < k && j > k {
            assert(blocks[i].end <= blocks[j - 1].start);
        }
    }
}

/// A block taken out keeps the blocks well formed.
pub proof fn lemma_remove_wf(blocks: Seq<Block>, len: int, k: int)
    requires
        blocks_wf(blocks, len),
        0 <= k < blocks.len(),
    ensures
        blocks_wf(blocks.remove(k), len),
{
    let after = blocks.remove(k);
    assert forall|i: int| 0 <= i < after.len() implies (#[trigger] after[i]).fits(len) by {
        if i < k {
            assert(after[i] == blocks[i]);
        } else {
            assert(after[i] == blocks[i + 1]);
        }
    }
    assert forall|i: int, j: int| 0 <= i < j < after.len() implies (#[trigger] after[i]).end <= (
    #[trigger] after[j]).start by {
        let a = if i < k { i } else { i + 1 };
        let b = if j < k { j } else { j + 1 };
        assert(after[i] == blocks[a] && after[j] == blocks[b]);
        assert(blocks[a].end <= blocks[b].start);
    }
}

/// In a well-formed list the starts increase strictly, no two blocks share a byte, and
/// every block ends within the chunk.
pub proof fn lemma_blocks_apart(blocks: Seq<Block>, len: int, i: int, j: int)
    requires
        blocks_wf(blocks, len),
        0 <= i < j < blocks.len(),
    ensures
        blocks[i].start < blocks[j].start,
        blocks[i].end <= blocks[j].start,
        blocks[i].end <= len,
        blocks[j].end <= len,
        forall|b: int| !(#[trigger] blocks[i].holds(b) && #[trigger] blocks[j].holds(b)),
{
    assert(blocks[i].fits(len));
    assert(blocks[j].fits(len));
    assert(blocks[i].end <= blocks[j].start);
}

/// A reservation: a block of the chunk in a slot of a slab. Its holder alone gives it back.
#[derive(Clone, Copy, Debug, PartialEq, Eq, Structural)]
pub struct ChunkAlloc {
    pub slot: usize,
    pub block: Block,
}

/// A memory type of the device, as the allocator needs it.
#[derive(Clone, Copy, Debug, PartialEq, Eq, Structural)]
pub struct MemoryType {
    pub id: u32,
    pub heap_size: u64,
    pub host_visible: bool,
    pub device_local: bool,
}

impl MemoryType {
    /// Whether memory of this type serves allocations of `kind`.
    pub open spec fn serves(self, kind: MemoryKind) -> bool {
        match kind {
            MemoryKind::Host => self.host_visible,
            MemoryKind::Device => self.device_local,
        }
    }
}

/// `s` with `x` put behind the last type whose heap is not smaller than that of `x`.
pub open spec fn insert_by_heap(s: Seq<MemoryType>, x: MemoryType) -> Seq<MemoryType>
    decreases s.len(),
{
    if s.len() == 0 {
        seq![x]
    } else if s.last().heap_size >= x.heap_size {
        s.push(x)
    } else {
        insert_by_heap(s.drop_last(), x).push(s.last())
    }
}

/// The types of `s` that serve `kind`, the larger heap first, and in the order of `s` where
/// heaps are equal.
pub open spec fn types_by_heap(s: Seq<MemoryType>, kind: MemoryKind) -> Seq<MemoryType>
    decreases s.len(),
{
    if s.len() == 0 {
        Seq::empty()
    } else if s.last().serves(kind) {
        insert_by_heap(types_by_heap(s.drop_last(), kind), s.last())
    } else {
        types_by_heap(s.drop_last(), kind)
    }
}

/// The size of the largest heap among `s`, 0 for none.
pub open spec fn largest_heap(s: Seq<MemoryType>) -> int {
    if s.len() == 0 {
        0
    } else {
        s[0].heap_size as int
    }
}

/// Whether the heaps of `s` do not grow along `s`.
pub open spec fn heaps_descend(s: Seq<MemoryType>) -> bool {
    forall|i: int, j: int| 0 <= i < j < s.len() ==> (#[trigger] s[i]).heap_size >= (#[trigger] s[j]).heap_size
}

/// Putting a type into a list whose heaps descend gives a list whose heaps descend, with
/// `x` in it and all that was there.
pub proof fn lemma_insert_by_heap(s: Seq<MemoryType>, x: MemoryType)
    requires
        heaps_descend(s),
    ensures
        heaps_descend(insert_by_heap(s, x)),
        insert_by_heap(s, x).len() == s.len() + 1,
        insert_by_heap(s, x).to_multiset() == s.to_multiset().insert(x),
        forall|i: int|
            0 <= i < insert_by_heap(s, x).len() ==> (#[trigger] insert_by_heap(s, x)[i]) == x
                || s.contains(insert_by_heap(s, x)[i]),
    decreases s.len(),
{
    broadcast use vstd::seq_lib::group_to_multiset_ensures;

    let r = insert_by_heap(s, x);
    if s.len() == 0 {
        assert(s =~= Seq::empty());
        assert(r.to_multiset() =~= s.to_multiset().insert(x));
    } else if s.last().heap_size >= x.heap_size {
        assert forall|i: int, j: int| 0 <= i < j < r.len() implies (#[trigger] r[i]).heap_size >= (
        #[trigger] r[j]).heap_size by {
            if j == s.len() {
                assert(s[i].heap_size >= s.last().heap_size || i == s.len() - 1);
            } else {
                assert(r[i] == s[i] && r[j] == s[j]);
            }
        }
        assert forall|i: int| 0 <= i < r.len() implies (#[trigger] r[i]) == x || s.contains(r[i]) by {
            if i < s.len() {
                assert(r[i] == s[i]);
            }
        }
    } else {
        let front = s.drop_last();
        assert(heaps_descend(front)) by {
            assert forall|i: int, j: int| 0 <= i < j < front.len() implies (#[trigger] front[i]).heap_size
                >= (#[trigger] front[j]).heap_size by {
                assert(front[i] == s[i] && front[j] == s[j]);
            }
        }
        lemma_insert_by_heap(front, x);
        let q = insert_by_heap(front, x);
        assert(r == q.push(s.last()));
        assert forall|i: int, j: int| 0 <= i < j < r.len() implies (#[trigger] r[i]).heap_size >= (
        #[trigger] r[j]).heap_size by {
            if j == q.len() {
                assert(r[i] == q[i]);
                if q[i] != x {
                    assert(front.contains(q[i]));
                    let w = choose|w: int| 0 <= w < front.len() && front[w] == q[i];
                    assert(s[w].heap_size >= s[s.len() - 1].heap_size);
                }
            } else {
                assert(r[i] == q[i] && r[j] == q[j]);
            }
        }
        assert(s =~= front.push(s.last()));
        assert(r.to_multiset() =~= s.to_multiset().insert(x));
        assert forall|i: int| 0 <= i < r.len() implies (#[trigger] r[i]) == x || s.contains(r[i]) by {
            if i < q.len() {
                assert(r[i] == q[i]);
                if q[i] != x {
                    let w = choose|w: int| 0 <= w < front.len() && front[w] == q[i];
                    assert(s[w] == q[i]);
                }
            } else {
                assert(r[i] == s[s.len() - 1]);
            }
        }
    }
}

/// In `types_by_heap(s, kind)` the heaps do not grow, and every type serves `kind`.
pub proof fn lemma_types_by_heap(s: Seq<MemoryType>, kind: MemoryKind)
    ensures
        heaps_descend(types_by_heap(s, kind)),
        forall|i: int|
            0 <= i < types_by_heap(s, kind).len() ==> (#[trigger] types_by_heap(s, kind)[i]).serves(kind)
                && s.contains(types_by_heap(s, kind)[i]),
    decreases s.len(),
{
    let r = types_by_heap(s, kind);
    if s.len() > 0 {
        let front = s.drop_last();
        lemma_types_by_heap(front, kind);
        let q = types_by_heap(front, kind);
        if s.last().serves(kind) {
            lemma_insert_by_heap(q, s.last());
        }
        assert forall|i: int| 0 <= i < r.len() implies (#[trigger] r[i]).serves(kind) && s.contains(
            r[i],
        ) by {
            if r[i] == s.last() && s.last().serves(kind) {
                assert(s[s.len() - 1] == r[i]);
            } else {
                assert(q.contains(r[i]));
                let w = choose|w: int| 0 <= w < q.len() && q[w] == r[i];
                assert(front.contains(q[w]));
                let v = choose|v: int| 0 <= v < front.len() && front[v] == q[w];
                assert(s[v] == r[i]);
            }
        }
    }
}

/// The types of `types` that serve `kind`, the larger heap first.
pub fn sort_types(types: &Vec<MemoryType>, kind: MemoryKind) -> (r: Vec<MemoryType>)
    ensures
        r@ == types_by_heap(types@, kind),
{
    let mut out: Vec<MemoryType> = Vec::new();
    let mut i: usize = 0;
    proof {
        assert(types@.take(0).len() == 0);
    }
    while i < types.len()
        invariant
            i <= types.len(),
            out@ == types_by_heap(types@.take(i as int), kind),
        decreases types.len() - i,
    {
        let x = types[i];
        proof {
            let t = types@.take(i as int + 1);
            assert(t.drop_last() == types@.take(i as int));
            assert(t.last() == x);
        }
        let serves: bool = match kind {
            MemoryKind::Host => x.host_visible,
            MemoryKind::Device => x.device_local,
        };
        if serves {
            let ghost before = out@;
            let mut p: usize = out.len();
            proof {
                assert(before.take(p as int) == before);
                assert(before.skip(p as int) =~= Seq::empty());
                assert(insert_by_heap(before, x) + Seq::<MemoryType>::empty() == insert_by_heap(before, x));
            }
            while p > 0 && out[p - 1].heap_size < x.heap_size
                invariant
                    p <= out.len(),
                    out@ == before,
                    insert_by_heap(before, x) == insert_by_heap(before.take(p as int), x) + before.skip(
                        p as int,
                    ),
                decreases p,
            {
                proof {
                    let s = before.take(p as int);
                    assert(s.last() == before[p - 1]);
                    assert(s.drop_last() == before.take(p - 1));
                    assert(insert_by_heap(s, x) == insert_by_heap(s.drop_last(), x).push(s.last()));
                    assert(insert_by_heap(before.take(p - 1), x).push(before[p - 1]) + before.skip(
                        p as int,
                    ) =~= insert_by_heap(before.take(p - 1), x) + before.skip(p - 1));
                }
                p = p - 1;
            }
            out.insert(p, x);
            proof {
                let s = before.take(p as int);
                assert(insert_by_heap(s, x) == s.push(x)) by {
                    if p > 0 {
                        assert(s.last() == before[p - 1]);
                    }
                }
                assert(out@ =~= s.push(x) + before.skip(p as int));
            }
        }
        i = i + 1;
    }
    proof {
        assert(types@.take(types.len() as int) == types@);
    }
    out
}

/// What a scan of the slots gives.
pub enum Scan {
    /// The chunk in `slot` has room, in its gap `gap`.
    Placed { slot: int, gap: int },
    /// The slot `slot` has no chunk, and a chunk of `size` bytes may be had.
    NeedChunk { slot: int, size: int },
    /// No slot has room and none can take a new chunk.
    Oom,
}

/// The books of the chunks of one kind of memory.
#[derive(Debug)]
pub struct Slab {
    pub kind: MemoryKind,
    /// The memory types to try for a new chunk, in this order.
    pub types: Vec<MemoryType>,
    /// The size of the largest heap that the types have.
    pub largest_heap: u64,
    /// The slots: a live chunk or none.
    pub chunks: Vec<Option<Chunk>>,
}

/// Every live chunk is well formed, holds a block, and is no larger than the largest heap.
pub open spec fn chunks_wf(chunks: Seq<Option<ChunkView>>, largest: int) -> bool {
    forall|i: int|
        0 <= i < chunks.len() && (#[trigger] chunks[i]) is Some ==> chunks[i]->0.wf()
            && chunks[i]->0.blocks.len() > 0 && chunks[i]->0.len <= largest
}

/// The scan of the slots from `from` on for `len` bytes: the first live chunk with room is
/// taken; an empty slot before it asks for a new chunk, unless the chunk would be larger than
/// the largest heap.
pub open spec fn scan(chunks: Seq<Option<ChunkView>>, largest: int, len: u64, from: int) -> Scan
    decreases chunks.len() - from,
{
    if from < 0 || from >= chunks.len() {
        Scan::Oom
    } else {
        match chunks[from] {
            Some(c) => match c.spec_alloc(len) {
                Some(k) => Scan::Placed { slot: from, gap: k },
                None => scan(chunks, largest, len, from + 1),
            },
            None => if len > 0 && round_up(len as int, CHUNK_GRAIN as int) <= largest {
                Scan::NeedChunk { slot: from, size: round_up(len as int, CHUNK_GRAIN as int) }
            } else {
                scan(chunks, largest, len, from + 1)
            },
        }
    }
}

/// What holds of a reservation of `len` bytes in a slab of `slots` slots: its slot is one of
/// the slab, and its block lies on the stride and has `len` bytes rounded up to the stride.
pub open spec fn placed_ok(a: ChunkAlloc, len: u64, slots: int) -> bool {
    &&& a.slot < slots
    &&& a.block.start < a.block.end
    &&& a.block.start % BLOCK_ALIGN == 0
    &&& a.block.end % BLOCK_ALIGN == 0
    &&& a.block.spec_len() == round_up(len as int, BLOCK_ALIGN as int)
}

/// What the allocator tells its caller to do next.
#[derive(Clone, Copy, Debug, PartialEq, Eq, Structural)]
pub enum AllocStep {
    /// The bytes are reserved.
    Placed(ChunkAlloc),
    /// A chunk of `size` bytes is needed for `slot`. The caller allocates the memory, trying
    /// the slab's memory types in order, and calls `install`; where no type gives the
    /// memory, it goes on with `allocate` from the next slot.
    NeedChunk { slot: usize, size: u64 },
    /// No chunk has room and none can be added.
    Oom,
}

impl Slab {
    /// What the slots hold.
    pub open spec fn slots(&self) -> Seq<Option<ChunkView>> {
        self.chunks.deep_view()
    }

    /// Every live chunk is well formed, holds a block, and is no larger than the largest
    /// heap.
    pub open spec fn wf(&self) -> bool {
        chunks_wf(self.slots(), self.largest_heap as int)
    }

    /// The slab is new for `kind` on a device with the memory types `types`: it has the
    /// types that serve `kind`, the larger heap first, and one empty slot for each chunk that
    /// fits the largest of their heaps.
    pub open spec fn fresh_for(&self, types: Seq<MemoryType>, kind: MemoryKind) -> bool {
        &&& self.kind == kind
        &&& self.types@ == types_by_heap(types, kind)
        &&& self.largest_heap == largest_heap(self.types@)
        &&& self.slots().len() == self.largest_heap as int / CHUNK_GRAIN as int
        &&& forall|i: int| 0 <= i < self.slots().len() ==> (#[trigger] self.slots()[i]) is None
    }

    /// The slab for `kind` on a device with the memory types `types`: one empty slot for each
    /// chunk that fits the largest heap that serves `kind`.
    pub fn new(types: &Vec<MemoryType>, kind: MemoryKind) -> (r: Slab)
        ensures
            r.wf(),
            r.fresh_for(types@, kind),
            r.kind == kind,
            r.types@ == types_by_heap(types@, kind),
            r.largest_heap == largest_heap(r.types@),
            r.slots().len() == r.largest_heap as int / CHUNK_GRAIN as int,
            forall|i: int| 0 <= i < r.slots().len() ==> (#[trigger] r.slots()[i]) is None,
    {
        let sorted = sort_types(types, kind);
        let largest: u64 = if sorted.len() > 0 { sorted[0].heap_size } else { 0 };
        let slots: u64 = largest / CHUNK_GRAIN;
        let mut chunks: Vec<Option<Chunk>> = Vec::new();
        let mut i: u64 = 0;
        while i < slots
            invariant
                i <= slots,
                chunks@.len() == i,
                forall|j: int| 0 <= j < chunks@.len() ==> (#[trigger] chunks@[j]) is None,
            decreases slots - i,
        {
            chunks.push(None);
            i = i + 1;
        }
        proof {
            assert forall|j: int| 0 <= j < chunks.deep_view().len() implies (
            #[trigger] chunks.deep_view()[j]) is None by {
                assert(chunks@[j] is None);
            }
        }
        Slab { kind, types: sorted, largest_heap: largest, chunks }
    }

    /// Scans the slots from `from` on for room for `len` bytes. Reserves the bytes in the
    /// first live chunk that has room; asks for a new chunk at an empty slot before it.
    pub fn allocate(&mut self, len: u64, from: usize) -> (r: AllocStep)
        requires
            old(self).wf(),
        ensures
            final(self).wf(),
            final(self).kind == old(self).kind,
            final(self).types == old(self).types,
            final(self).largest_heap == old(self).largest_heap,
            final(self).slots().len() == old(self).slots().len(),
            len > old(self).largest_heap ==> r == AllocStep::Oom,
            r matches AllocStep::Placed(a) ==> placed_ok(a, len, old(self).slots().len() as int),
            match scan(old(self).slots(), old(self).largest_heap as int, len, from as int) {
                Scan::Placed { slot, gap } => {
                    let c = old(self).slots()[slot]->0;
                    let block = block_in_gap(c.blocks, round_up(len as int, BLOCK_ALIGN as int), gap);
                    &&& r == AllocStep::Placed(ChunkAlloc { slot: slot as usize, block })
                    &&& final(self).slots() == old(self).slots().update(
                        slot,
                        Some(ChunkView { len: c.len, blocks: c.blocks.insert(gap, block) }),
                    )
                },
                Scan::NeedChunk { slot, size } => {
                    &&& r == AllocStep::NeedChunk { slot: slot as usize, size: size as u64 }
                    &&& final(self).slots() == old(self).slots()
                },
                Scan::Oom => r == AllocStep::Oom && final(self).slots() == old(self).slots(),
            },
    {
        let ghost slots = self.slots();
        let ghost largest = self.largest_heap as int;
        let mut i: usize = from;
        proof {
            if len > largest {
                lemma_oversized(slots, largest, len, from as int);
            }
        }
        while i < self.chunks.len()
            invariant
                self.slots() == slots,
                slots == old(self).slots(),
                self.largest_heap == largest,
                largest == old(self).largest_heap,
                self.kind == old(self).kind,
                self.types == old(self).types,
                chunks_wf(slots, largest),
                from <= i,
                scan(slots, largest, len, from as int) == scan(slots, largest, len, i as int),
                len > largest ==> scan(slots, largest, len, from as int) == Scan::Oom,
            decreases self.chunks.len() - i,
        {
            let ghost before_vec = self.chunks@;
            assert(slots[i as int] == before_vec[i as int].deep_view());
            match self.chunks.remove(i) {
                Some(mut chunk) => {
                    let ghost before = chunk@;
                    assert(slots[i as int] == Some(before));
                    let placed = chunk.allocate(len);
                    let ghost after = chunk@;
                    self.chunks.insert(i, Some(chunk));
                    proof {
                        assert(self.chunks@ =~= before_vec.update(i as int, Some(chunk)));
                        assert(self.slots() =~= slots.update(i as int, Some(after)));
                    }
                    match placed {
                        Some(block) => {
                            proof {
                                assert forall|j: int|
                                    0 <= j < self.slots().len() && (
                                    #[trigger] self.slots()[j]) is Some implies self.slots()[j]->0.wf()
                                    && self.slots()[j]->0.blocks.len() > 0 && self.slots()[j]->0.len <= self.largest_heap by {
                                    if j != i {
                                        assert(self.slots()[j] == slots[j]);
                                    }
                                }
                            }
                            return AllocStep::Placed(ChunkAlloc { slot: i, block });
                        },
                        None => {
                            proof {
                                assert(after == before);
                                assert(self.slots() =~= slots);
                            }
                        },
                    }
                },
                None => {
                    self.chunks.insert(i, None);
                    proof {
                        assert(self.chunks@ =~= before_vec);
                        assert(self.slots() =~= slots);
                    }
                    if len > 0 {
                        match checked_round_up(len, CHUNK_GRAIN) {
                            Some(size) => {
                                if size <= self.largest_heap {
                                    return AllocStep::NeedChunk { slot: i, size };
                                }
                            },
                            None => {},
                        }
                    }
                },
            }
            i = i + 1;
        }
        AllocStep::Oom
    }

    /// Puts a new chunk of `size` bytes into the empty slot `slot` and reserves `len` bytes
    /// at its start. Nothing changes, and nothing is reserved, where the slot is taken or is
    /// none of the slab's, `size` is off the stride or beyond the largest heap, or `len` is 0
    /// or more than `size`.
    pub fn install(&mut self, slot: usize, size: u64, len: u64) -> (r: Option<ChunkAlloc>)
        requires
            old(self).wf(),
        ensures
            final(self).wf(),
            final(self).kind == old(self).kind,
            final(self).types == old(self).types,
            final(self).largest_heap == old(self).largest_heap,
            r is Some <==> slot < old(self).slots().len() && old(self).slots()[slot as int] is None
                && size % BLOCK_ALIGN == 0 && size <= old(self).largest_heap && 0 < len && round_up(
                len as int,
                BLOCK_ALIGN as int,
            ) <= size,
            r is Some ==> {
                let block = Block { start: 0, end: round_up(len as int, BLOCK_ALIGN as int) as u64 };
                &&& r == Some(ChunkAlloc { slot, block })
                &&& final(self).slots() == old(self).slots().update(
                    slot as int,
                    Some(ChunkView { len: size, blocks: seq![block] }),
                )
            },
            r is None ==> final(self).slots() == old(self).slots(),
            r is Some ==> placed_ok(r->0, len, old(self).slots().len() as int),
    {
        if slot >= self.chunks.len() || size % BLOCK_ALIGN != 0 || size > self.largest_heap || len
            == 0 {
            return None;
        }
        let ghost slots = self.slots();
        let ghost before_vec = self.chunks@;
        assert(slots[slot as int] == before_vec[slot as int].deep_view());
        let taken = self.chunks.remove(slot);
        if taken.is_some() {
            self.chunks.insert(slot, taken);
            proof {
                assert(self.chunks@ =~= before_vec);
                assert(self.slots() =~= slots);
            }
            return None;
        }
        let mut chunk = Chunk::new(size);
        let ghost need = round_up(len as int, BLOCK_ALIGN as int);
        proof {
            assert(first_fit(chunk.blocks@, size as int, need, 1) is None);
        }
        let placed = chunk.allocate(len);
        match placed {
            Some(block) => {
                let ghost after = chunk@;
                proof {
                    assert(after.blocks =~= seq![block]);
                }
                self.chunks.insert(slot, Some(chunk));
                proof {
                    assert(self.chunks@ =~= before_vec.update(slot as int, Some(chunk)));
                    assert(self.slots() =~= slots.update(slot as int, Some(after)));
                    assert forall|j: int|
                        0 <= j < self.slots().len() && (#[trigger] self.slots()[j]) is Some implies self.slots()[j]->0.wf()
                        && self.slots()[j]->0.blocks.len() > 0 && self.slots()[j]->0.len <= self.largest_heap by {
                        if j != slot {
                            assert(self.slots()[j] == slots[j]);
                        }
                    }
                }
                Some(ChunkAlloc { slot, block })
            },
            None => {
                self.chunks.insert(slot, None);
                proof {
                    assert(self.chunks@ =~= before_vec);
                    assert(self.slots() =~= slots);
                }
                None
            },
        }
    }

    /// Gives a reservation back. The block leaves its chunk; a chunk that holds no block any
    /// more leaves its slot, and `true` says that its memory can be freed.
    pub fn free(&mut self, reservation: ChunkAlloc) -> (r: bool)
        requires
            old(self).wf(),
        ensures
            final(self).wf(),
            final(self).kind == old(self).kind,
            final(self).types == old(self).types,
            final(self).largest_heap == old(self).largest_heap,
            final(self).slots() == spec_free(old(self).slots(), reservation),
            r <==> final(self).slots() != old(self).slots() && final(self).slots()[reservation.slot as int] is None,
    {
        let slot = reservation.slot;
        if slot >= self.chunks.len() {
            return false;
        }
        let ghost slots = self.slots();
        let ghost before_vec = self.chunks@;
        assert(slots[slot as int] == before_vec[slot as int].deep_view());
        match self.chunks.remove(slot) {
            Some(mut chunk) => {
                let ghost before = chunk@;
                assert(slots[slot as int] == Some(before));
                let found = chunk.free(reservation.block.start);
                let ghost after = chunk@;
                let ghost at = index_of_start(before.blocks, reservation.block.start, 0);
                proof {
                    if found {
                        assert(at is Some);
                        lemma_index_of_start(before.blocks, reservation.block.start, 0);
                        assert(after.blocks == before.blocks.remove(at->0));
                        assert(after.blocks.len() == before.blocks.len() - 1);
                        assert(after == (ChunkView { len: before.len, blocks: before.blocks.remove(at->0) }));
                    } else {
                        assert(at is None);
                    }
                }
                if found && chunk.blocks.len() == 0 {
                    self.chunks.insert(slot, None);
                    proof {
                        assert(self.chunks@ =~= before_vec.update(slot as int, None));
                        assert(self.slots() =~= slots.update(slot as int, None));
                        assert forall|j: int|
                            0 <= j < self.slots().len() && (
                            #[trigger] self.slots()[j]) is Some implies self.slots()[j]->0.wf()
                            && self.slots()[j]->0.blocks.len() > 0 && self.slots()[j]->0.len <= self.largest_heap by {
                            if j != slot {
                                assert(self.slots()[j] == slots[j]);
                            }
                        }
                    }
                    true
                } else {
                    self.chunks.insert(slot, Some(chunk));
                    proof {
                        assert(self.chunks@ =~= before_vec.update(slot as int, Some(chunk)));
                        assert(self.slots() =~= slots.update(slot as int, Some(after)));
                        if !found {
                            assert(after == before);
                            assert(self.slots() =~= slots);
                        }
                        assert forall|j: int|
                            0 <= j < self.slots().len() && (
                            #[trigger] self.slots()[j]) is Some implies self.slots()[j]->0.wf()
                            && self.slots()[j]->0.blocks.len() > 0 && self.slots()[j]->0.len <= self.largest_heap by {
                            if j != slot {
                                assert(self.slots()[j] == slots[j]);
                            }
                        }
                    }
                    false
                }
            },
            None => {
                self.chunks.insert(slot, None);
                proof {
                    assert(self.chunks@ =~= before_vec);
                    assert(self.slots() =~= slots);
                }
                false
            },
        }
    }
}

/// An allocation larger than the largest heap finds no room and no new chunk.
pub proof fn lemma_oversized(chunks: Seq<Option<ChunkView>>, largest: int, len: u64, from: int)
    requires
        chunks_wf(chunks, largest),
        len > largest,
        0 <= largest,
    ensures
        scan(chunks, largest, len, from) == Scan::Oom,
    decreases chunks.len() - from,
{
    if 0 <= from < chunks.len() {
        match chunks[from] {
            Some(c) => {
                lemma_no_room(c.blocks, c.len as int, round_up(len as int, BLOCK_ALIGN as int), 0);
            },
            None => {},
        }
        lemma_oversized(chunks, largest, len, from + 1);
    }
}

/// No gap of a chunk has room for more bytes than the chunk has.
pub proof fn lemma_no_room(blocks: Seq<Block>, len: int, need: int, k: int)
    requires
        blocks_wf(blocks, len),
        need > len,
        0 <= k,
    ensures
        first_fit(blocks, len, need, k) is None,
    decreases blocks.len() + 1 - k,
{
    if k <= blocks.len() {
        if k < blocks.len() {
            assert(blocks[k].fits(len));
        }
        if k > 0 {
            assert(blocks[k - 1].fits(len));
        }
        lemma_no_room(blocks, len, need, k + 1);
    }
}

/// An index that `index_of_start` gives is one of the list, from `k` on.
pub proof fn lemma_index_of_start(blocks: Seq<Block>, start: u64, k: int)
    requires
        0 <= k,
    ensures
        index_of_start(blocks, start, k) is Some ==> k <= index_of_start(blocks, start, k)->0
            < blocks.len() && blocks[index_of_start(blocks, start, k)->0].start == start,
    decreases blocks.len() - k,
{
    if k < blocks.len() && blocks[k].start != start {
        lemma_index_of_start(blocks, start, k + 1);
    }
}

/// The slots after the reservation `a` is given back: its block leaves its chunk, and a
/// chunk without a block leaves its slot. Nothing changes where no such block is reserved.
pub open spec fn spec_free(slots: Seq<Option<ChunkView>>, a: ChunkAlloc) -> Seq<Option<ChunkView>> {
    if a.slot >= slots.len() {
        slots
    } else {
        match slots[a.slot as int] {
            Some(c) => match index_of_start(c.blocks, a.block.start, 0) {
                Some(k) => if c.blocks.len() == 1 {
                    slots.update(a.slot as int, None)
                } else {
                    slots.update(
                        a.slot as int,
                        Some(ChunkView { len: c.len, blocks: c.blocks.remove(k) }),
                    )
                },
                None => slots,
            },
            None => slots,
        }
    }
}

/// Where an allocation goes, or what it needs first.
#[derive(Clone, Copy, Debug, PartialEq, Eq, Structural)]
pub enum Placement {
    /// The bytes are reserved.
    Placed(ChunkAlloc),
    /// A chunk of `size` bytes is needed for `slot`.
    NeedChunk { slot: usize, size: u64 },
}

/// What the caller of an allocation is told, as a result: being out of memory is its error.
pub open spec fn placement_of(step: AllocStep, kind: MemoryKind) -> Result<Placement, Error> {
    match step {
        AllocStep::Placed(a) => Ok(Placement::Placed(a)),
        AllocStep::NeedChunk { slot, size } => Ok(Placement::NeedChunk { slot, size }),
        AllocStep::Oom => Err(Error::Oom { kind }),
    }
}

/// The allocator of an engine: one slab for memory that the host can map, and one for memory
/// local to the device.
#[derive(Debug)]
pub struct BufferAllocator {
    pub host: Slab,
    pub device: Slab,
}

impl BufferAllocator {
    /// Both slabs are well formed, each for its kind of memory.
    pub open spec fn wf(&self) -> bool {
        &&& self.host.wf()
        &&& self.device.wf()
        &&& self.host.kind == MemoryKind::Host
        &&& self.device.kind == MemoryKind::Device
    }

    /// The allocator is new for a device with the memory types `types`: each slab is.
    pub open spec fn fresh_for(&self, types: Seq<MemoryType>) -> bool {
        &&& self.host.fresh_for(types, MemoryKind::Host)
        &&& self.device.fresh_for(types, MemoryKind::Device)
    }

    /// The allocator for a device with the memory types `types`: nothing is reserved, and
    /// each slab has the types that serve it, the larger heap first, and an empty slot for
    /// each chunk that fits its largest heap.
    pub fn new(types: &Vec<MemoryType>) -> (r: BufferAllocator)
        ensures
            r.wf(),
            r.fresh_for(types@),
    {
        BufferAllocator {
            host: Slab::new(types, MemoryKind::Host),
            device: Slab::new(types, MemoryKind::Device),
        }
    }

    /// Reserves `len` bytes of host-visible memory, scanning the slots from `from` on.
    pub fn alloc_host(&mut self, len: u64, from: usize) -> (r: Result<Placement, Error>)
        requires
            old(self).wf(),
        ensures
            final(self).wf(),
            final(self).device == old(self).device,
            final(self).host.types == old(self).host.types,
            final(self).host.largest_heap == old(self).host.largest_heap,
            r == placement_of(
                spec_step(old(self).host.slots(), old(self).host.largest_heap as int, len, from as int),
                MemoryKind::Host,
            ),
            final(self).host.slots() == spec_slots(
                old(self).host.slots(),
                old(self).host.largest_heap as int,
                len,
                from as int,
            ),
            len > old(self).host.largest_heap ==> r == Err::<Placement, Error>(
                Error::Oom { kind: MemoryKind::Host },
            ),
            r matches Ok(Placement::Placed(a)) ==> placed_ok(
                a,
                len,
                old(self).host.slots().len() as int,
            ),
    {
        match self.host.allocate(len, from) {
            AllocStep::Placed(a) => Ok(Placement::Placed(a)),
            AllocStep::NeedChunk { slot, size } => Ok(Placement::NeedChunk { slot, size }),
            AllocStep::Oom => Err(Error::Oom { kind: MemoryKind::Host }),
        }
    }

    /// Reserves `len` bytes of device-local memory, scanning the slots from `from` on.
    pub fn alloc_device(&mut self, len: u64, from: usize) -> (r: Result<Placement, Error>)
        requires
            old(self).wf(),
        ensures
            final(self).wf(),
            final(self).host == old(self).host,
            final(self).device.types == old(self).device.types,
            final(self).device.largest_heap == old(self).device.largest_heap,
            r == placement_of(
                spec_step(
                    old(self).device.slots(),
                    old(self).device.largest_heap as int,
                    len,
                    from as int,
                ),
                MemoryKind::Device,
            ),
            final(self).device.slots() == spec_slots(
                old(self).device.slots(),
                old(self).device.largest_heap as int,
                len,
                from as int,
            ),
            len > old(self).device.largest_heap ==> r == Err::<Placement, Error>(
                Error::Oom { kind: MemoryKind::Device },
            ),
            r matches Ok(Placement::Placed(a)) ==> placed_ok(
                a,
                len,
                old(self).device.slots().len() as int,
            ),
    {
        match self.device.allocate(len, from) {
            AllocStep::Placed(a) => Ok(Placement::Placed(a)),
            AllocStep::NeedChunk { slot, size } => Ok(Placement::NeedChunk { slot, size }),
            AllocStep::Oom => Err(Error::Oom { kind: MemoryKind::Device }),
        }
    }
}

/// The step that a scan of the slots ends in.
pub open spec fn spec_step(chunks: Seq<Option<ChunkView>>, largest: int, len: u64, from: int) -> AllocStep {
    match scan(chunks, largest, len, from) {
        Scan::Placed { slot, gap } => AllocStep::Placed(
            ChunkAlloc {
                slot: slot as usize,
                block: block_in_gap(
                    chunks[slot]->0.blocks,
                    round_up(len as int, BLOCK_ALIGN as int),
                    gap,
                ),
            },
        ),
        Scan::NeedChunk { slot, size } => AllocStep::NeedChunk { slot: slot as usize, size: size as u64 },
        Scan::Oom => AllocStep::Oom,
    }
}

/// The slots after a scan: the block is in its chunk where one had room.
pub open spec fn spec_slots(chunks: Seq<Option<ChunkView>>, largest: int, len: u64, from: int) -> Seq<
    Option<ChunkView>,
> {
    match scan(chunks, largest, len, from) {
        Scan::Placed { slot, gap } => {
            let c = chunks[slot]->0;
            chunks.update(
                slot,
                Some(
                    ChunkView {
                        len: c.len,
                        blocks: c.blocks.insert(
                            gap,
                            block_in_gap(c.blocks, round_up(len as int, BLOCK_ALIGN as int), gap),
                        ),
                    },
                ),
            )
        },
        _ => chunks,
    }
}

} // verus!
