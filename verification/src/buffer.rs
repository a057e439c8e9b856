//! Buffers on the host and on the device, and the plans by which bytes move between them
//! through a staging buffer of fixed size.
use vstd::prelude::*;
use crate::engine::DeviceId;
use crate::error::Error;
use crate::error::MemoryKind;
use crate::slab::round_up;
use crate::slab::Block;
use crate::slab::BufferAllocator;
use crate::slab::ChunkAlloc;
use crate::slab::Placement;
use crate::slab::BLOCK_ALIGN;

verus! {

/// Size of a worker's staging buffer: no more bytes move in one transfer.
pub const HOST_STAGE: u64 = 0x200_0000;

/// A buffer in host-visible memory: the first `len` bytes of a reserved block.
#[derive(Clone, Copy, Debug, PartialEq, Eq, Structural)]
pub struct HostBuffer {
    pub alloc: ChunkAlloc,
    pub len: u64,
}

impl HostBuffer {
    /// The buffer lies within its block.
    pub open spec fn wf(&self) -> bool {
        self.alloc.block.start <= self.alloc.block.end && self.len <= self.alloc.block.spec_len()
    }

    /// The buffer of `len` bytes in the block of `alloc`, if the block has that many.
    pub fn new(alloc: ChunkAlloc, len: u64) -> (r: Option<HostBuffer>)
        ensures
            r == if alloc.block.start <= alloc.block.end && len <= alloc.block.spec_len() {
                Some(HostBuffer { alloc, len })
            } else {
                None
            },
            r is Some ==> r->0.wf(),
    {
        if alloc.block.start <= alloc.block.end && len <= alloc.block.end - alloc.block.start {
            Some(HostBuffer { alloc, len })
        } else {
            None
        }
    }

    /// Where in the chunk's mapping the buffer's bytes are: from `start` up to `end`.
    pub fn range(&self) -> (r: (u64, u64))
        requires
            self.wf(),
        ensures
            r.0 == self.alloc.block.start,
            r.1 == self.alloc.block.start + self.len,
            r.1 <= self.alloc.block.end,
    {
        (self.alloc.block.start, self.alloc.block.start + self.len)
    }
}

/// A buffer in device memory: `len` bytes at `offset` in a reserved block, and the cell that
/// holds the future of the last operation that wrote it. A buffer of no bytes reserves
/// nothing.
#[derive(Clone, Copy, Debug, PartialEq, Eq, Structural)]
pub struct DeviceBuffer {
    pub device: DeviceId,
    pub alloc: Option<ChunkAlloc>,
    pub offset: u64,
    pub len: u64,
    /// Which future cell the buffer shares with the other views of its block.
    pub cell: usize,
    /// Whether the host can map the buffer's memory.
    pub host_visible: bool,
}

impl DeviceBuffer {
    /// The buffer's invariant: it lies within its block, and the block and the offset are on
    /// the stride of the blocks.
    pub open spec fn wf(&self) -> bool {
        match self.alloc {
            Some(a) => {
                &&& a.block.start <= a.block.end
                &&& self.offset + self.len <= a.block.spec_len()
                &&& self.offset % BLOCK_ALIGN == 0
                &&& a.block.spec_len() % BLOCK_ALIGN as int == 0
                &&& a.block.start % BLOCK_ALIGN == 0
            },
            None => self.len == 0 && self.offset == 0,
        }
    }

    /// The buffer of no bytes.
    pub fn empty(device: DeviceId, cell: usize) -> (r: DeviceBuffer)
        ensures
            r.wf(),
            r == (DeviceBuffer { device, alloc: None, offset: 0, len: 0, cell, host_visible: false }),
    {
        DeviceBuffer { device, alloc: None, offset: 0, len: 0, cell, host_visible: false }
    }

    /// The buffer of `len` bytes at the start of the block of `alloc`, if the block is on
    /// the stride and has that many bytes.
    pub fn in_block(device: DeviceId, alloc: ChunkAlloc, len: u64, cell: usize, host_visible: bool) -> (r:
        Option<DeviceBuffer>)
        ensures
            r is Some ==> r->0.wf() && r->0 == (DeviceBuffer {
                device,
                alloc: Some(alloc),
                offset: 0,
                len,
                cell,
                host_visible,
            }),
            r is Some <==> alloc.block.start <= alloc.block.end && len <= alloc.block.spec_len()
                && alloc.block.start % BLOCK_ALIGN == 0 && alloc.block.end % BLOCK_ALIGN == 0,
    {
        let b = alloc.block;
        if b.start <= b.end && len <= b.end - b.start && b.start % BLOCK_ALIGN == 0 && b.end
            % BLOCK_ALIGN == 0 {
            Some(DeviceBuffer { device, alloc: Some(alloc), offset: 0, len, cell, host_visible })
        } else {
            None
        }
    }

    /// Number of bytes in the buffer.
    pub fn len(&self) -> (r: u64)
        ensures
            r == self.len,
    {
        self.len
    }

    /// The view of the bytes from `start` up to `end` of the buffer, sharing its block and its
    /// future cell. There is none where the range is not one of the buffer, or does not start
    /// on the stride of the blocks.
    pub fn slice(&self, start: u64, end: u64) -> (r: Option<DeviceBuffer>)
        requires
            self.wf(),
        ensures
            r is Some <==> start <= end <= self.len && start % BLOCK_ALIGN == 0 && self.alloc is Some,
            r is Some ==> r->0.wf() && r->0 == (DeviceBuffer {
                offset: (self.offset + start) as u64,
                len: (end - start) as u64,
                ..*self
            }),
    {
        if start <= end && end <= self.len && start % BLOCK_ALIGN == 0 && self.alloc.is_some() {
            Some(
                DeviceBuffer {
                    device: self.device,
                    alloc: self.alloc,
                    offset: self.offset + start,
                    len: end - start,
                    cell: self.cell,
                    host_visible: self.host_visible,
                },
            )
        } else {
            None
        }
    }
}

/// What making a buffer needs next.
#[derive(Clone, Copy, Debug, PartialEq, Eq, Structural)]
pub enum Uninit {
    /// The buffer is made.
    Buffer(DeviceBuffer),
    /// A chunk of `size` bytes is needed for `slot` of the device slab.
    NeedChunk { slot: usize, size: u64 },
}

/// What `uninit` gives for what the allocator gave.
pub open spec fn spec_uninit(
    device: DeviceId,
    len: u64,
    cell: usize,
    placed: Result<Placement, Error>,
) -> Result<Uninit, Error> {
    match placed {
        Ok(Placement::Placed(a)) => Ok(
            Uninit::Buffer(
                DeviceBuffer { device, alloc: Some(a), offset: 0, len, cell, host_visible: false },
            ),
        ),
        Ok(Placement::NeedChunk { slot, size }) => Ok(Uninit::NeedChunk { slot, size }),
        Err(e) => Err(e),
    }
}

/// Makes a buffer of `len` bytes whose contents are not set: reserves `len` bytes, rounded up
/// to the stride, in the device slab, scanning its slots from `from` on. A buffer of no
/// bytes reserves nothing. Nothing else changes in the allocator: the host slab stays as it
/// is, and the device slab gets the one block, where a chunk has room.
pub fn uninit(allocator: &mut BufferAllocator, device: DeviceId, len: u64, cell: usize, from: usize) -> (r:
    Result<Uninit, Error>)
    requires
        old(allocator).wf(),
    ensures
        final(allocator).wf(),
        final(allocator).host == old(allocator).host,
        final(allocator).device.kind == old(allocator).device.kind,
        final(allocator).device.types == old(allocator).device.types,
        final(allocator).device.largest_heap == old(allocator).device.largest_heap,
        len > 0 ==> final(allocator).device.slots() == crate::slab::spec_slots(
            old(allocator).device.slots(),
            old(allocator).device.largest_heap as int,
            len,
            from as int,
        ),
        len == 0 ==> r == Ok::<Uninit, Error>(Uninit::Buffer(DeviceBuffer::empty_spec(device, cell)))
            && *final(allocator) == *old(allocator),
        len > 0 ==> r == spec_uninit(
            device,
            len,
            cell,
            crate::slab::placement_of(
                crate::slab::spec_step(
                    old(allocator).device.slots(),
                    old(allocator).device.largest_heap as int,
                    len,
                    from as int,
                ),
                MemoryKind::Device,
            ),
        ),
        len > old(allocator).device.largest_heap ==> r == Err::<Uninit, Error>(
            Error::Oom { kind: MemoryKind::Device },
        ),
        r matches Ok(Uninit::Buffer(b)) ==> (b.wf() && b.len == len && b.offset == 0 && (len > 0
            ==> b.alloc is Some && b.alloc->0.block.spec_len() == round_up(
            len as int,
            BLOCK_ALIGN as int,
        ))),
{
    if len == 0 {
        return Ok(Uninit::Buffer(DeviceBuffer::empty(device, cell)));
    }
    match allocator.alloc_device(len, from) {
        Ok(Placement::Placed(a)) => Ok(
            Uninit::Buffer(
                DeviceBuffer { device, alloc: Some(a), offset: 0, len, cell, host_visible: false },
            ),
        ),
        Ok(Placement::NeedChunk { slot, size }) => Ok(Uninit::NeedChunk { slot, size }),
        Err(e) => Err(e),
    }
}

impl DeviceBuffer {
    /// The buffer of no bytes.
    pub open spec fn empty_spec(device: DeviceId, cell: usize) -> DeviceBuffer {
        DeviceBuffer { device, alloc: None, offset: 0, len: 0, cell, host_visible: false }
    }
}

/// One transfer through the staging buffer: `len` bytes at `offset` of the buffer.
#[derive(Clone, Copy, Debug, PartialEq, Eq, Structural)]
pub struct Stage {
    pub offset: u64,
    pub len: u64,
}

/// How many transfers `len` bytes take.
pub open spec fn stage_count(len: int) -> int {
    (len + HOST_STAGE - 1) / HOST_STAGE as int
}

/// Transfer `i` of `len` bytes: a full staging buffer, or what is left.
pub open spec fn stage_at(len: int, i: int) -> Stage {
    Stage {
        offset: (i * HOST_STAGE) as u64,
        len: (if len - i * HOST_STAGE < HOST_STAGE { len - i * HOST_STAGE } else { HOST_STAGE as int }) as u64,
    }
}

/// The transfers that `len` bytes take, in order.
pub open spec fn stages(len: u64) -> Seq<Stage> {
    Seq::new(stage_count(len as int) as nat, |i: int| stage_at(len as int, i))
}

/// The pieces of `data` that the transfers `s` move, one after the other.
pub open spec fn gather(data: Seq<u8>, s: Seq<Stage>) -> Seq<u8>
    decreases s.len(),
{
    if s.len() == 0 {
        Seq::empty()
    } else {
        gather(data, s.drop_last()) + data.subrange(
            s.last().offset as int,
            s.last().offset + s.last().len,
        )
    }
}

/// The transfers that `len` bytes take through the staging buffer, in order. No bytes take
/// no transfer.
pub fn transfer_stages(len: u64) -> (r: Vec<Stage>)
    ensures
        r@ == stages(len),
        len == 0 ==> r@.len() == 0,
{
    let mut out: Vec<Stage> = Vec::new();
    let mut offset: u64 = 0;
    while offset < len
        invariant
            offset <= len,
            out@.len() * HOST_STAGE == offset || (offset == len && out@.len() == stage_count(len as int)),
            out@.len() <= stage_count(len as int),
            forall|i: int| 0 <= i < out@.len() ==> out@[i] == stage_at(len as int, i),
        decreases len - offset,
    {
        let left: u64 = len - offset;
        let n: u64 = if left < HOST_STAGE { left } else { HOST_STAGE };
        out.push(Stage { offset, len: n });
        offset = offset + n;
    }
    proof {
        assert(out@.len() == stage_count(len as int));
        assert(out@ =~= stages(len));
    }
    out
}

/// The transfers of `len` bytes tile the bytes: each moves some and no more than a staging
/// buffer holds, the first starts at 0, each starts where the one before ends, and the last
/// ends at `len`.
pub proof fn lemma_stages_tile(len: u64, i: int)
    requires
        0 <= i < stages(len).len(),
    ensures
        0 < stages(len)[i].len <= HOST_STAGE,
        stages(len)[i].offset == i * HOST_STAGE,
        stages(len)[i].offset + stages(len)[i].len <= len,
        i + 1 < stages(len).len() ==> stages(len)[i + 1].offset == stages(len)[i].offset + stages(
            len,
        )[i].len,
        i + 1 == stages(len).len() ==> stages(len)[i].offset + stages(len)[i].len == len,
{
}

/// What the transfers of `data.len()` bytes move, piece after piece, is `data`: bytes that go
/// up through the staging buffer and come down the same way come back as they were.
pub proof fn lemma_gather_stages(data: Seq<u8>)
    requires
        data.len() <= u64::MAX,
    ensures
        gather(data, stages(data.len() as u64)) == data,
{
    let s = stages(data.len() as u64);
    lemma_gather_prefix(data, s.len() as int);
    assert(s.take(s.len() as int) == s);
    if s.len() == 0 {
        assert(data =~= Seq::empty());
    } else {
        lemma_stages_tile(data.len() as u64, s.len() - 1);
        assert(data.subrange(0, data.len() as int) == data);
    }
}

/// A transfer keeps the bytes: what comes down from a buffer in stages, and goes up to
/// another buffer in the stages of as many bytes, is what the buffer holds.
pub proof fn lemma_transfer_keeps_bytes(data: Seq<u8>)
    requires
        data.len() <= u64::MAX,
    ensures
        gather(gather(data, stages(data.len() as u64)), stages(data.len() as u64)) == data,
{
    lemma_gather_stages(data);
}

/// The first `n` transfers move the bytes before the start of transfer `n`.
proof fn lemma_gather_prefix(data: Seq<u8>, n: int)
    requires
        data.len() <= u64::MAX,
        0 <= n <= stages(data.len() as u64).len(),
    ensures
        gather(data, stages(data.len() as u64).take(n)) == data.subrange(
            0,
            if n == stages(data.len() as u64).len() { data.len() as int } else { n * HOST_STAGE },
        ),
    decreases n,
{
    let s = stages(data.len() as u64);
    let t = s.take(n);
    if n == 0 {
        assert(data.subrange(0, 0) =~= Seq::empty());
        if s.len() == 0 {
            assert(data.len() == 0);
        }
    } else {
        lemma_gather_prefix(data, n - 1);
        lemma_stages_tile(data.len() as u64, n - 1);
        assert(t.drop_last() == s.take(n - 1));
        assert(t.last() == s[n - 1]);
        let end = if n == s.len() { data.len() as int } else { n * HOST_STAGE };
        assert(s[n - 1].offset + s[n - 1].len == end);
        assert(data.subrange(0, (n - 1) * HOST_STAGE) + data.subrange((n - 1) * HOST_STAGE, end)
            =~= data.subrange(0, end));
    }
}

/// How the bytes of an upload or a download go.
#[derive(Debug)]
pub enum Route {
    /// There are no bytes: nothing is enqueued.
    Nothing,
    /// The host maps the buffer's memory and copies, once the buffer's future is ready.
    Mapped,
    /// The bytes go through the staging buffer, one transfer after the other.
    Staged(Vec<Stage>),
}

/// The route for a buffer of `len` bytes.
pub fn route(host_visible: bool, len: u64) -> (r: Route)
    ensures
        len == 0 ==> r is Nothing,
        len > 0 && host_visible ==> r is Mapped,
        len > 0 && !host_visible ==> (r matches Route::Staged(s) && s@ == stages(len)),
{
    if len == 0 {
        Route::Nothing
    } else if host_visible {
        Route::Mapped
    } else {
        Route::Staged(transfer_stages(len))
    }
}

/// One step of an upload on the caller's side.
#[derive(Clone, Copy, Debug, PartialEq, Eq, Structural)]
pub enum UploadAction {
    /// Hand transfer `k` to a worker.
    Enqueue(usize),
    /// Take the staging buffer from the worker of transfer `k` and copy the bytes of the
    /// transfer in.
    Fill(usize),
    /// Tell the worker of transfer `k` that it may submit.
    Submit(usize),
    /// Take the future of transfer `k` from its worker and put it in the buffer's cell.
    TakeFuture(usize),
}

/// Step `i` of an upload: each transfer is handed over, filled, let go and its future
/// taken, one transfer after the other.
pub open spec fn upload_step(i: int) -> UploadAction {
    let k = (i / 4) as usize;
    if i % 4 == 0 {
        UploadAction::Enqueue(k)
    } else if i % 4 == 1 {
        UploadAction::Fill(k)
    } else if i % 4 == 2 {
        UploadAction::Submit(k)
    } else {
        UploadAction::TakeFuture(k)
    }
}

/// The steps of an upload of `n` transfers. The future that the buffer's cell holds in the
/// end is that of the last transfer.
pub open spec fn upload_script(n: int) -> Seq<UploadAction> {
    Seq::new((4 * n) as nat, |i: int| upload_step(i))
}

/// The steps of an upload of `n` transfers, in order.
pub fn upload_steps(n: usize) -> (r: Vec<UploadAction>)
    ensures
        r@ == upload_script(n as int),
        n > 0 ==> r@.last() == UploadAction::TakeFuture((n - 1) as usize),
{
    let mut out: Vec<UploadAction> = Vec::new();
    let mut k: usize = 0;
    while k < n
        invariant
            k <= n,
            out@.len() == 4 * k,
            forall|i: int| 0 <= i < out@.len() ==> out@[i] == upload_step(i),
        decreases n - k,
    {
        out.push(UploadAction::Enqueue(k));
        out.push(UploadAction::Fill(k));
        out.push(UploadAction::Submit(k));
        out.push(UploadAction::TakeFuture(k));
        k = k + 1;
    }
    proof {
        assert(out@ =~= upload_script(n as int));
    }
    out
}

/// One step of a download on the caller's side.
#[derive(Clone, Copy, Debug, PartialEq, Eq, Structural)]
pub enum DownloadAction {
    /// Hand transfer `k` to a worker.
    Enqueue(usize),
    /// Wait until the buffer's future is ready; the device is lost if the engine exits first.
    AwaitFuture,
    /// Tell the worker of transfer `k` that it may submit.
    Submit(usize),
    /// Take the staging buffer of transfer `k` from its worker, copy its bytes out, and
    /// release it.
    CopyOut(usize),
}

/// The steps for transfer `k` of a download: the transfer is handed over and let go, and
/// meanwhile the transfer before it is copied out. The first transfer waits for the buffer's
/// future.
pub open spec fn download_round(k: int) -> Seq<DownloadAction> {
    if k == 0 {
        seq![
            DownloadAction::Enqueue(0),
            DownloadAction::AwaitFuture,
            DownloadAction::Submit(0),
        ]
    } else {
        seq![
            DownloadAction::Enqueue(k as usize),
            DownloadAction::Submit(k as usize),
            DownloadAction::CopyOut((k - 1) as usize),
        ]
    }
}

/// The steps of a download of `n` transfers up to its round `k`.
pub open spec fn download_rounds(k: int) -> Seq<DownloadAction>
    decreases k,
{
    if k <= 0 {
        Seq::empty()
    } else {
        download_rounds(k - 1) + download_round(k - 1)
    }
}

/// The steps of a download of `n` transfers: the rounds, and then the last copy.
pub open spec fn download_script(n: int) -> Seq<DownloadAction> {
    if n <= 0 {
        Seq::empty()
    } else {
        download_rounds(n).push(DownloadAction::CopyOut((n - 1) as usize))
    }
}

/// How many of the steps `s` hand a transfer over.
pub open spec fn count_enqueued(s: Seq<DownloadAction>) -> int
    decreases s.len(),
{
    if s.len() == 0 {
        0
    } else {
        count_enqueued(s.drop_last()) + if s.last() is Enqueue { 1int } else { 0int }
    }
}

/// How many of the steps `s` copy a transfer out.
pub open spec fn count_copied(s: Seq<DownloadAction>) -> int
    decreases s.len(),
{
    if s.len() == 0 {
        0
    } else {
        count_copied(s.drop_last()) + if s.last() is CopyOut { 1int } else { 0int }
    }
}

/// The steps of a download of `n` transfers, in order.
pub fn download_steps(n: usize) -> (r: Vec<DownloadAction>)
    ensures
        r@ == download_script(n as int),
{
    let mut out: Vec<DownloadAction> = Vec::new();
    if n == 0 {
        return out;
    }
    let mut k: usize = 0;
    while k < n
        invariant
            k <= n,
            out@ == download_rounds(k as int),
        decreases n - k,
    {
        let ghost before = out@;
        out.push(DownloadAction::Enqueue(k));
        if k == 0 {
            out.push(DownloadAction::AwaitFuture);
            out.push(DownloadAction::Submit(k));
        } else {
            out.push(DownloadAction::Submit(k));
            out.push(DownloadAction::CopyOut(k - 1));
        }
        proof {
            assert(out@ =~= before + download_round(k as int));
        }
        k = k + 1;
    }
    out.push(DownloadAction::CopyOut(n - 1));
    out
}

/// After the rounds up to `k`, `k` transfers are handed over and all but the last copied out.
pub proof fn lemma_download_rounds(k: int)
    requires
        0 <= k,
    ensures
        download_rounds(k).len() == 3 * k,
        count_enqueued(download_rounds(k)) == k,
        count_copied(download_rounds(k)) == if k == 0 { 0 } else { k - 1 },
    decreases k,
{
    if k > 0 {
        lemma_download_rounds(k - 1);
        let a = download_rounds(k - 1);
        let r = download_round(k - 1);
        let s1 = a.push(r[0]);
        let s2 = s1.push(r[1]);
        let s3 = s2.push(r[2]);
        assert(s3 =~= a + r);
        assert(s3.drop_last() == s2);
        assert(s2.drop_last() == s1);
        assert(s1.drop_last() == a);
        assert(count_enqueued(s1) == count_enqueued(a) + 1);
        assert(count_copied(s1) == count_copied(a));
        assert(count_enqueued(s2) == count_enqueued(s1));
        assert(count_copied(s2) == count_copied(s1));
        assert(count_enqueued(s3) == count_enqueued(s2));
    }
}

/// A download copies out every transfer that it hands over.
pub proof fn lemma_download_complete(n: int)
    requires
        0 <= n,
    ensures
        count_enqueued(download_script(n)) == n,
        count_copied(download_script(n)) == n,
{
    if n > 0 {
        lemma_download_rounds(n);
        let s = download_script(n);
        assert(s.drop_last() == download_rounds(n));
    }
}

} // verus!
