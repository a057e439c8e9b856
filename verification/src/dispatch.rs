//! The dispatch frontend: it checks the arguments of a dispatch, lays out the push-constant
//! block, chooses the number of groups, and orders the futures that the dispatch locks.
use vstd::prelude::*;
use crate::buffer::DeviceBuffer;
use crate::desc::append_bytes;
use crate::desc::push_end;
use crate::desc::push_range;
use crate::desc::push_types;
use crate::desc::round_up_to;
use crate::desc::value_types;
use crate::desc::PushDesc;
use crate::desc::SliceDesc;
use crate::engine::DeviceId;
use crate::error::ArgumentError;
use crate::error::Error;
use crate::kernel::div_ceil;
use crate::kernel::Kernel;
use crate::kernel::KernelSliceArg;
use crate::scalar::bytes_of;
use crate::scalar::le_bytes;
use crate::scalar::lemma_le_bytes_len;
use crate::scalar::ScalarElem;
use crate::slab::round_up;
use crate::worker::WorkerFuture;

verus! {

/// What is wrong with the slice `arg` as argument `i` of a kernel on `device` that declares
/// the slice as `desc`, if anything: its type, its mutability, that it is empty, that it is
/// not on the device, or that it reaches beyond what a kernel can address.
pub open spec fn slice_error(desc: SliceDesc, arg: KernelSliceArg, device: DeviceId, i: usize) -> Option<
    ArgumentError,
> {
    let s = arg.slice();
    let width = desc.scalar_type.spec_size() as int;
    if s.scalar_type != desc.scalar_type {
        Some(ArgumentError::SliceType(i))
    } else if desc.mutable && !(arg is SliceMut) {
        Some(ArgumentError::SliceMutability(i))
    } else if s.len == 0 {
        Some(ArgumentError::SliceEmpty(i))
    } else if s.buffer is None {
        Some(ArgumentError::SliceOnHost(i))
    } else if s.buffer->0.device != device {
        Some(ArgumentError::SliceDevice(i))
    } else if s.len > u32::MAX || s.buffer->0.offset as int / width > u32::MAX || s.buffer->0.len as int
        / width > u32::MAX {
        Some(ArgumentError::SliceRange(i))
    } else {
        None
    }
}

/// What is wrong with the first of the first `n` slices that something is wrong with.
pub open spec fn slices_error(
    descs: Seq<SliceDesc>,
    args: Seq<KernelSliceArg>,
    device: DeviceId,
    n: int,
) -> Option<ArgumentError>
    decreases n,
{
    if n <= 0 {
        None
    } else {
        match slices_error(descs, args, device, n - 1) {
            Some(e) => Some(e),
            None => slice_error(descs[n - 1], args[n - 1], device, (n - 1) as usize),
        }
    }
}

/// The first of the first `n` push constants that has not the type declared for it.
pub open spec fn push_error(descs: Seq<PushDesc>, values: Seq<ScalarElem>, n: int) -> Option<
    ArgumentError,
>
    decreases n,
{
    if n <= 0 {
        None
    } else {
        match push_error(descs, values, n - 1) {
            Some(e) => Some(e),
            None => if values[n - 1].spec_scalar_type() != descs[n - 1].scalar_type {
                Some(ArgumentError::PushType((n - 1) as usize))
            } else {
                None
            },
        }
    }
}

/// What is wrong with the arguments of a dispatch, if anything: the first fault, the push
/// constants taken before the slices.
pub open spec fn arguments_error(
    push_descs: Seq<PushDesc>,
    slice_descs: Seq<SliceDesc>,
    values: Seq<ScalarElem>,
    args: Seq<KernelSliceArg>,
    device: DeviceId,
) -> Option<ArgumentError> {
    if values.len() != push_descs.len() {
        Some(ArgumentError::PushCount)
    } else if push_error(push_descs, values, values.len() as int) is Some {
        push_error(push_descs, values, values.len() as int)
    } else if args.len() != slice_descs.len() {
        Some(ArgumentError::SliceCount)
    } else {
        slices_error(slice_descs, args, device, args.len() as int)
    }
}

/// The number of items of a dispatch on the first `n` slices: the length of the shortest
/// slice that is declared as items, if one is.
pub open spec fn item_count(descs: Seq<SliceDesc>, args: Seq<KernelSliceArg>, n: int) -> Option<int>
    decreases n,
{
    if n <= 0 {
        None
    } else {
        let rest = item_count(descs, args, n - 1);
        let len = args[n - 1].slice().len as int;
        if !descs[n - 1].item {
            rest
        } else {
            match rest {
                Some(m) => Some(if len < m { len } else { m }),
                None => Some(len),
            }
        }
    }
}

/// The number of groups of a dispatch: the groups that were given, which must not be more
/// than the device dispatches; else as many as the items take, at `threads` to a group, but
/// no more than the device dispatches.
pub open spec fn group_count(groups: Option<u32>, items: Option<int>, threads: u32, max_groups: u32) -> Result<
    u32,
    ArgumentError,
> {
    match groups {
        Some(g) => if g > max_groups {
            Err(ArgumentError::Groups { groups: g, max_groups })
        } else {
            Ok(g)
        },
        None => match items {
            Some(n) => Ok(
                if div_ceil(n, threads as int) < max_groups {
                    div_ceil(n, threads as int) as u32
                } else {
                    max_groups
                },
            ),
            None => Err(ArgumentError::GroupsMissing),
        },
    }
}

/// `n` zero bytes.
pub open spec fn zeros(n: int) -> Seq<u8> {
    Seq::new(n as nat, |i: int| 0u8)
}

/// `s` filled up with zero bytes to a multiple of `align`.
pub open spec fn padded(s: Seq<u8>, align: int) -> Seq<u8> {
    s + zeros(round_up(s.len() as int, align) - s.len())
}

/// The bytes of the first `n` push constants: each at the next multiple of its size.
pub open spec fn push_block(values: Seq<ScalarElem>, n: int) -> Seq<u8>
    decreases n,
{
    if n <= 0 {
        Seq::empty()
    } else {
        padded(push_block(values, n - 1), values[n - 1].spec_scalar_type().spec_size() as int)
            + values[n - 1].spec_bytes()
    }
}

/// The two words of a slice in the push-constant block: where its buffer's bytes start and
/// how many they are, both in elements.
pub open spec fn slice_pair(desc: SliceDesc, arg: KernelSliceArg) -> Seq<u8> {
    let b = arg.slice().buffer->0;
    let width = desc.scalar_type.spec_size() as int;
    le_bytes((b.offset as int / width) as nat, 4) + le_bytes((b.len as int / width) as nat, 4)
}

/// The words of the first `n` slices in the push-constant block.
pub open spec fn slice_pairs(descs: Seq<SliceDesc>, args: Seq<KernelSliceArg>, n: int) -> Seq<u8>
    decreases n,
{
    if n <= 0 {
        Seq::empty()
    } else {
        slice_pairs(descs, args, n - 1) + slice_pair(descs[n - 1], args[n - 1])
    }
}

/// The push-constant block of a dispatch: the push constants, filled up to a multiple of 4,
/// and then the words of the slices.
pub open spec fn push_bytes(values: Seq<ScalarElem>, descs: Seq<SliceDesc>, args: Seq<KernelSliceArg>) -> Seq<
    u8,
> {
    padded(push_block(values, values.len() as int), 4) + slice_pairs(descs, args, args.len() as int)
}

/// The buffers of the slices `args`.
pub open spec fn buffers_of(args: Seq<KernelSliceArg>) -> Seq<DeviceBuffer> {
    Seq::new(args.len(), |i: int| args[i].slice().buffer->0)
}

/// What a dispatch hands to the engine.
#[derive(Debug)]
pub struct Dispatch {
    pub groups: u32,
    pub buffers: Vec<DeviceBuffer>,
    pub push_bytes: Vec<u8>,
    /// Whether the caller waits for the kernel and asks whether it panicked.
    pub debug_printf: bool,
}

/// What a `Dispatch` holds.
pub struct DispatchView {
    pub groups: u32,
    pub buffers: Seq<DeviceBuffer>,
    pub push_bytes: Seq<u8>,
    pub debug_printf: bool,
}

impl View for Dispatch {
    type V = DispatchView;

    open spec fn view(&self) -> DispatchView {
        DispatchView {
            groups: self.groups,
            buffers: self.buffers@,
            push_bytes: self.push_bytes@,
            debug_printf: self.debug_printf,
        }
    }
}

/// What a `dispatch` gave, as values.
pub open spec fn dispatch_view(r: Result<Dispatch, Error>) -> Result<DispatchView, Error> {
    match r {
        Ok(d) => Ok(d@),
        Err(e) => Err(e),
    }
}

/// What a dispatch of `kernel` on `args` with the push constants `values` gives: the first
/// fault of the arguments, else a fault of the groups, else what the engine is handed.
pub open spec fn spec_dispatch(kernel: Kernel, args: Seq<KernelSliceArg>, values: Seq<ScalarElem>) -> Result<
    DispatchView,
    Error,
> {
    let desc = kernel.inner.desc;
    let info = kernel.inner.device;
    match arguments_error(desc.push_descs@, desc.slice_descs@, values, args, info.id) {
        Some(reason) => Err(Error::InvalidArgument { reason }),
        None => match group_count(
            kernel.groups,
            item_count(desc.slice_descs@, args, args.len() as int),
            kernel.threads,
            info.max_groups,
        ) {
            Err(reason) => Err(Error::InvalidArgument { reason }),
            Ok(groups) => Ok(
                DispatchView {
                    groups,
                    buffers: buffers_of(args),
                    push_bytes: push_bytes(values, desc.slice_descs@, args),
                    debug_printf: info.debug_printf,
                },
            ),
        },
    }
}

/// What is wrong with the slice `arg`, if anything.
pub fn check_slice(desc: &SliceDesc, arg: &KernelSliceArg, device: DeviceId, i: usize) -> (r: Option<
    ArgumentError,
>)
    ensures
        r == slice_error(*desc, *arg, device, i),
{
    let width: u64 = desc.scalar_type.size() as u64;
    if arg.scalar_type() != desc.scalar_type {
        return Some(ArgumentError::SliceType(i));
    }
    if desc.mutable && !arg.mutable() {
        return Some(ArgumentError::SliceMutability(i));
    }
    if arg.len() == 0 {
        return Some(ArgumentError::SliceEmpty(i));
    }
    let buffer = match arg.device_buffer() {
        Some(b) => b,
        None => { return Some(ArgumentError::SliceOnHost(i)); },
    };
    if buffer.device != device {
        return Some(ArgumentError::SliceDevice(i));
    }
    if arg.len() > u32::MAX as usize || buffer.offset / width > u32::MAX as u64 || buffer.len / width
        > u32::MAX as u64 {
        return Some(ArgumentError::SliceRange(i));
    }
    None
}

/// What is wrong with the arguments of a dispatch, if anything.
pub fn check_arguments(
    push_descs: &Vec<PushDesc>,
    slice_descs: &Vec<SliceDesc>,
    values: &[ScalarElem],
    args: &[KernelSliceArg],
    device: DeviceId,
) -> (r: Option<ArgumentError>)
    ensures
        r == arguments_error(push_descs@, slice_descs@, values@, args@, device),
{
    if values.len() != push_descs.len() {
        return Some(ArgumentError::PushCount);
    }
    let mut i: usize = 0;
    while i < values.len()
        invariant
            i <= values.len(),
            values.len() == push_descs.len(),
            push_error(push_descs@, values@, i as int) is None,
        decreases values.len() - i,
    {
        if values[i].scalar_type() != push_descs[i].scalar_type {
            proof {
                lemma_push_error_stays(push_descs@, values@, i as int + 1, values.len() as int);
            }
            return Some(ArgumentError::PushType(i));
        }
        i = i + 1;
    }
    if args.len() != slice_descs.len() {
        return Some(ArgumentError::SliceCount);
    }
    let mut i: usize = 0;
    while i < args.len()
        invariant
            i <= args.len(),
            args.len() == slice_descs.len(),
            values.len() == push_descs.len(),
            push_error(push_descs@, values@, values.len() as int) is None,
            slices_error(slice_descs@, args@, device, i as int) is None,
        decreases args.len() - i,
    {
        match check_slice(&slice_descs[i], &args[i], device, i) {
            Some(e) => {
                proof {
                    lemma_slices_error_stays(slice_descs@, args@, device, i as int + 1, args.len() as int);
                }
                return Some(e);
            },
            None => {},
        }
        i = i + 1;
    }
    None
}

/// A fault among the first `n` push constants is the fault among the first `m`.
pub proof fn lemma_push_error_stays(descs: Seq<PushDesc>, values: Seq<ScalarElem>, n: int, m: int)
    requires
        n <= m,
        push_error(descs, values, n) is Some,
    ensures
        push_error(descs, values, m) == push_error(descs, values, n),
    decreases m,
{
    if n < m {
        lemma_push_error_stays(descs, values, n, m - 1);
    }
}

/// A fault among the first `n` slices is the fault among the first `m`.
pub proof fn lemma_slices_error_stays(
    descs: Seq<SliceDesc>,
    args: Seq<KernelSliceArg>,
    device: DeviceId,
    n: int,
    m: int,
)
    requires
        n <= m,
        slices_error(descs, args, device, n) is Some,
    ensures
        slices_error(descs, args, device, m) == slices_error(descs, args, device, n),
    decreases m,
{
    if n < m {
        lemma_slices_error_stays(descs, args, device, n, m - 1);
    }
}

/// Without a fault among the first `n` slices, none of them has one.
pub proof fn lemma_slices_fine(descs: Seq<SliceDesc>, args: Seq<KernelSliceArg>, device: DeviceId, n: int, i: int)
    requires
        slices_error(descs, args, device, n) is None,
        0 <= i < n,
    ensures
        slice_error(descs[i], args[i], device, i as usize) is None,
    decreases n,
{
    if i < n - 1 {
        lemma_slices_fine(descs, args, device, n - 1, i);
    }
}

/// Without a fault among the first `n` push constants, each has the type declared for it.
pub proof fn lemma_push_fine(descs: Seq<PushDesc>, values: Seq<ScalarElem>, n: int, i: int)
    requires
        push_error(descs, values, n) is None,
        0 <= i < n,
    ensures
        values[i].spec_scalar_type() == descs[i].scalar_type,
    decreases n,
{
    if i < n - 1 {
        lemma_push_fine(descs, values, n - 1, i);
    }
}

/// The number of items of a dispatch.
pub fn count_items(descs: &Vec<SliceDesc>, args: &[KernelSliceArg]) -> (r: Option<usize>)
    requires
        args.len() == descs.len(),
    ensures
        match r {
            Some(n) => item_count(descs@, args@, args.len() as int) == Some(n as int),
            None => item_count(descs@, args@, args.len() as int) is None,
        },
{
    let mut items: Option<usize> = None;
    let mut i: usize = 0;
    while i < args.len()
        invariant
            i <= args.len(),
            args.len() == descs.len(),
            match items {
                Some(n) => item_count(descs@, args@, i as int) == Some(n as int),
                None => item_count(descs@, args@, i as int) is None,
            },
        decreases args.len() - i,
    {
        if descs[i].item {
            let len: usize = args[i].len();
            items = match items {
                Some(m) => Some(if len < m { len } else { m }),
                None => Some(len),
            };
        }
        i = i + 1;
    }
    items
}

/// The number of groups of a dispatch.
pub fn choose_groups(groups: Option<u32>, items: Option<usize>, threads: u32, max_groups: u32) -> (r:
    Result<u32, ArgumentError>)
    requires
        threads > 0,
    ensures
        r == group_count(
            groups,
            match items {
                Some(n) => Some(n as int),
                None => None,
            },
            threads,
            max_groups,
        ),
        (groups is None && items is Some && div_ceil(items->0 as int, threads as int) <= max_groups)
            ==> r == Ok::<u32, ArgumentError>(div_ceil(items->0 as int, threads as int) as u32),
{
    match groups {
        Some(g) => {
            if g > max_groups {
                Err(ArgumentError::Groups { groups: g, max_groups })
            } else {
                Ok(g)
            }
        },
        None => match items {
            Some(n) => {
                let t: usize = threads as usize;
                let whole: usize = n / t;
                let partial: bool = n % t != 0;
                proof {
                    assert(whole <= n) by (nonlinear_arith)
                        requires
                            whole == n / t,
                            t > 0,
                    ;
                }
                if whole >= max_groups as usize {
                    Ok(max_groups)
                } else if partial {
                    Ok((whole + 1) as u32)
                } else {
                    Ok(whole as u32)
                }
            },
            None => Err(ArgumentError::GroupsMissing),
        },
    }
}

/// Appends zero bytes to `out` up to a multiple of `align`, a size of a scalar.
pub fn pad(out: &mut Vec<u8>, align: usize)
    requires
        align == 1 || align == 2 || align == 4 || align == 8,
    ensures
        final(out)@ == padded(old(out)@, align as int),
{
    let target: u128 = round_up_to(out.len() as u128, align);
    let ghost before = out@;
    proof {
        assert(out@ =~= before + zeros(0));
    }
    while (out.len() as u128) < target
        invariant
            before.len() <= out@.len() <= target,
            target == round_up(before.len() as int, align as int),
            out@ == before + zeros(out@.len() - before.len()),
        decreases target - out@.len(),
    {
        let ghost prev = out@;
        out.push(0);
        proof {
            assert(out@ =~= before + zeros(out@.len() - before.len()));
        }
    }
}

/// The push-constant block of a dispatch whose arguments are checked.
pub fn build_push_bytes(values: &[ScalarElem], descs: &Vec<SliceDesc>, args: &[KernelSliceArg], device: DeviceId) -> (r:
    Vec<u8>)
    requires
        args.len() == descs.len(),
        slices_error(descs@, args@, device, args.len() as int) is None,
    ensures
        r@ == push_bytes(values@, descs@, args@),
{
    let mut out: Vec<u8> = Vec::new();
    let mut i: usize = 0;
    while i < values.len()
        invariant
            i <= values.len(),
            out@ == push_block(values@, i as int),
        decreases values.len() - i,
    {
        pad(&mut out, values[i].scalar_type().size());
        let b = values[i].as_bytes();
        append_bytes(&mut out, &b);
        i = i + 1;
    }
    pad(&mut out, 4);
    let ghost head = out@;
    let mut k: usize = 0;
    while k < args.len()
        invariant
            k <= args.len(),
            args.len() == descs.len(),
            slices_error(descs@, args@, device, args.len() as int) is None,
            out@ == head + slice_pairs(descs@, args@, k as int),
        decreases args.len() - k,
    {
        proof {
            lemma_slices_fine(descs@, args@, device, args.len() as int, k as int);
        }
        let width: u64 = descs[k].scalar_type.size() as u64;
        let buffer = match args[k].device_buffer() {
            Some(b) => b,
            None => DeviceBuffer::empty(device, 0),
        };
        let offset = bytes_of(buffer.offset / width, 4);
        let len = bytes_of(buffer.len / width, 4);
        let ghost before = out@;
        append_bytes(&mut out, &offset);
        append_bytes(&mut out, &len);
        proof {
            assert(out@ =~= before + slice_pair(descs@[k as int], args@[k as int]));
            assert(out@ =~= head + slice_pairs(descs@, args@, k as int + 1));
        }
        k = k + 1;
    }
    out
}

/// The buffers of slices that are checked.
pub fn collect_buffers(descs: &Vec<SliceDesc>, args: &[KernelSliceArg], device: DeviceId) -> (r: Vec<
    DeviceBuffer,
>)
    requires
        args.len() == descs.len(),
        slices_error(descs@, args@, device, args.len() as int) is None,
    ensures
        r@ == buffers_of(args@),
{
    let mut out: Vec<DeviceBuffer> = Vec::new();
    let mut k: usize = 0;
    while k < args.len()
        invariant
            k <= args.len(),
            args.len() == descs.len(),
            slices_error(descs@, args@, device, args.len() as int) is None,
            out@.len() == k,
            forall|j: int| 0 <= j < k ==> out@[j] == args@[j].slice().buffer->0,
        decreases args.len() - k,
    {
        proof {
            lemma_slices_fine(descs@, args@, device, args.len() as int, k as int);
        }
        match args[k].device_buffer() {
            Some(b) => {
                out.push(b);
            },
            None => {
                out.push(DeviceBuffer::empty(device, 0));
            },
        }
        k = k + 1;
    }
    proof {
        assert(out@ =~= buffers_of(args@));
    }
    out
}

impl Kernel {
    /// Prepares a dispatch of the kernel on the slices `slices` with the push constants
    /// `push_consts`: checks the arguments, lays out the push-constant block, and chooses the
    /// number of groups.
    pub fn dispatch(&self, slices: &[KernelSliceArg], push_consts: &[ScalarElem]) -> (r: Result<
        Dispatch,
        Error,
    >)
        requires
            self.wf(),
        ensures
            dispatch_view(r) == spec_dispatch(*self, slices@, push_consts@),
            r is Ok ==> r->Ok_0.push_bytes@.len() == self.inner.desc.spec_push_consts_range(),
    {
        let desc = &self.inner.desc;
        let info = &self.inner.device;
        match check_arguments(&desc.push_descs, &desc.slice_descs, push_consts, slices, info.id) {
            Some(reason) => { return Err(Error::InvalidArgument { reason }); },
            None => {},
        }
        let items = count_items(&desc.slice_descs, slices);
        let groups = match choose_groups(self.groups, items, self.threads, info.max_groups) {
            Ok(g) => g,
            Err(reason) => { return Err(Error::InvalidArgument { reason }); },
        };
        let push_bytes = build_push_bytes(push_consts, &desc.slice_descs, slices, info.id);
        let buffers = collect_buffers(&desc.slice_descs, slices, info.id);
        proof {
            lemma_push_bytes_len(desc.push_descs@, push_consts@, desc.slice_descs@, slices@);
        }
        Ok(Dispatch { groups, buffers, push_bytes, debug_printf: info.debug_printf })
    }
}

/// The first `n` push constants of the declared types end where the descriptor says.
pub proof fn lemma_push_block_len(descs: Seq<PushDesc>, values: Seq<ScalarElem>, n: int)
    requires
        0 <= n <= values.len(),
        values.len() == descs.len(),
        push_error(descs, values, values.len() as int) is None,
    ensures
        push_block(values, n).len() == push_end(push_types(descs), n),
    decreases n,
{
    if n > 0 {
        lemma_push_block_len(descs, values, n - 1);
        lemma_push_fine(descs, values, values.len() as int, n - 1);
        let e = values[n - 1];
        lemma_le_bytes_len(e.bits(), e.spec_scalar_type().spec_size());
        assert(push_types(descs)[n - 1] == descs[n - 1].scalar_type);
    }
}

/// The first `n` slices take eight bytes each.
pub proof fn lemma_slice_pairs_len(descs: Seq<SliceDesc>, args: Seq<KernelSliceArg>, n: int)
    requires
        0 <= n,
    ensures
        slice_pairs(descs, args, n).len() == 8 * n,
    decreases n,
{
    if n > 0 {
        lemma_slice_pairs_len(descs, args, n - 1);
        let b = args[n - 1].slice().buffer->0;
        let width = descs[n - 1].scalar_type.spec_size() as int;
        lemma_le_bytes_len((b.offset as int / width) as nat, 4);
        lemma_le_bytes_len((b.len as int / width) as nat, 4);
    }
}

/// The push-constant block of a dispatch with push constants of the declared types has the
/// size that the kernel's descriptor states.
pub proof fn lemma_push_bytes_len(
    push_descs: Seq<PushDesc>,
    values: Seq<ScalarElem>,
    slice_descs: Seq<SliceDesc>,
    args: Seq<KernelSliceArg>,
)
    requires
        values.len() == push_descs.len(),
        push_error(push_descs, values, values.len() as int) is None,
        args.len() == slice_descs.len(),
    ensures
        push_bytes(values, slice_descs, args).len() == push_range(
            push_types(push_descs),
            slice_descs.len() as int,
        ),
{
    lemma_push_block_len(push_descs, values, values.len() as int);
    lemma_slice_pairs_len(slice_descs, args, args.len() as int);
    assert(push_types(push_descs).len() == values.len());
}

/// The number of groups of an item kernel with `items` items and `threads` threads in a
/// group, dispatched without given groups on a device that dispatches that many, is the
/// items over the threads, rounded up.
pub proof fn lemma_item_groups(items: int, threads: u32, max_groups: u32)
    requires
        0 <= items,
        threads > 0,
        div_ceil(items, threads as int) <= max_groups,
    ensures
        group_count(None, Some(items), threads, max_groups) == Ok::<u32, ArgumentError>(
            div_ceil(items, threads as int) as u32,
        ),
{
}

/// A future that a dispatch locks: the cell, and whether the dispatch writes the buffer and
/// so replaces the future in the cell.
#[derive(Clone, Copy, Debug, PartialEq, Eq, Structural)]
pub struct FutureLock {
    pub cell: usize,
    pub mutable: bool,
}

/// `s` with `x` put behind the last lock whose cell is not after that of `x`.
pub open spec fn insert_by_cell(s: Seq<FutureLock>, x: FutureLock) -> Seq<FutureLock>
    decreases s.len(),
{
    if s.len() == 0 {
        seq![x]
    } else if s.last().cell <= x.cell {
        s.push(x)
    } else {
        insert_by_cell(s.drop_last(), x).push(s.last())
    }
}

/// The locks of the first `n` buffers, in the order of their cells.
pub open spec fn locks_by_cell(buffers: Seq<DeviceBuffer>, descs: Seq<SliceDesc>, n: int) -> Seq<
    FutureLock,
>
    decreases n,
{
    if n <= 0 {
        Seq::empty()
    } else {
        insert_by_cell(
            locks_by_cell(buffers, descs, n - 1),
            FutureLock { cell: buffers[n - 1].cell, mutable: descs[n - 1].mutable },
        )
    }
}

/// Whether the cells of `s` do not go back along `s`.
pub open spec fn cells_ascend(s: Seq<FutureLock>) -> bool {
    forall|i: int, j: int| 0 <= i < j < s.len() ==> (#[trigger] s[i]).cell <= (#[trigger] s[j]).cell
}

/// The futures that a dispatch on `buffers` locks, in the order in which it locks them: by
/// their cells, so that two dispatches never wait for each other.
pub fn lock_order(buffers: &Vec<DeviceBuffer>, descs: &Vec<SliceDesc>) -> (r: Vec<FutureLock>)
    requires
        buffers.len() == descs.len(),
    ensures
        r@ == locks_by_cell(buffers@, descs@, buffers.len() as int),
        cells_ascend(r@),
        r@.len() == buffers.len(),
{
    let mut out: Vec<FutureLock> = Vec::new();
    let mut i: usize = 0;
    while i < buffers.len()
        invariant
            i <= buffers.len(),
            buffers.len() == descs.len(),
            out@ == locks_by_cell(buffers@, descs@, i as int),
            cells_ascend(out@),
            out@.len() == i,
        decreases buffers.len() - i,
    {
        let x = FutureLock { cell: buffers[i].cell, mutable: descs[i].mutable };
        let ghost before = out@;
        let mut p: usize = out.len();
        proof {
            assert(before.take(p as int) == before);
            assert(before.skip(p as int) =~= Seq::empty());
            assert(insert_by_cell(before, x) + Seq::<FutureLock>::empty() == insert_by_cell(before, x));
            lemma_insert_by_cell(before, x);
        }
        while p > 0 && out[p - 1].cell > x.cell
            invariant
                p <= out.len(),
                out@ == before,
                insert_by_cell(before, x) == insert_by_cell(before.take(p as int), x) + before.skip(
                    p as int,
                ),
            decreases p,
        {
            proof {
                let s = before.take(p as int);
                assert(s.last() == before[p - 1]);
                assert(s.drop_last() == before.take(p - 1));
                assert(insert_by_cell(s, x) == insert_by_cell(s.drop_last(), x).push(s.last()));
                assert(insert_by_cell(before.take(p - 1), x).push(before[p - 1]) + before.skip(
                    p as int,
                ) =~= insert_by_cell(before.take(p - 1), x) + before.skip(p - 1));
            }
            p = p - 1;
        }
        out.insert(p, x);
        proof {
            let s = before.take(p as int);
            assert(insert_by_cell(s, x) == s.push(x)) by {
                if p > 0 {
                    assert(s.last() == before[p - 1]);
                }
            }
            assert(out@ =~= s.push(x) + before.skip(p as int));
        }
        i = i + 1;
    }
    out
}

/// Putting a lock into a list whose cells ascend gives a list whose cells ascend, one
/// longer, with the lock in it and all that was there.
pub proof fn lemma_insert_by_cell(s: Seq<FutureLock>, x: FutureLock)
    requires
        cells_ascend(s),
    ensures
        cells_ascend(insert_by_cell(s, x)),
        insert_by_cell(s, x).len() == s.len() + 1,
        forall|i: int|
            0 <= i < insert_by_cell(s, x).len() ==> (#[trigger] insert_by_cell(s, x)[i]) == x
                || s.contains(insert_by_cell(s, x)[i]),
    decreases s.len(),
{
    let r = insert_by_cell(s, x);
    if s.len() == 0 {
    } else if s.last().cell <= x.cell {
        assert forall|i: int, j: int| 0 <= i < j < r.len() implies (#[trigger] r[i]).cell <= (
        #[trigger] r[j]).cell by {
            if j == s.len() {
                assert(s[i].cell <= s.last().cell || i == s.len() - 1);
            } else {
                assert(r[i] == s[i] && r[j] == s[j]);
            }
        }
        assert forall|i: int| 0 <= i < r.len() implies (#[trigger] r[i]) == x || s.contains(r[i]) by {
            if i < s.len() {
                assert(r[i] == s[i]);
            }
        }
    } else {
        let front = s.drop_last();
        assert(cells_ascend(front)) by {
            assert forall|i: int, j: int| 0 <= i < j < front.len() implies (#[trigger] front[i]).cell <= (
            #[trigger] front[j]).cell by {
                assert(front[i] == s[i] && front[j] == s[j]);
            }
        }
        lemma_insert_by_cell(front, x);
        let q = insert_by_cell(front, x);
        assert(r == q.push(s.last()));
        assert forall|i: int, j: int| 0 <= i < j < r.len() implies (#[trigger] r[i]).cell <= (
        #[trigger] r[j]).cell by {
            if j == q.len() {
                assert(r[i] == q[i]);
                if q[i] != x {
                    assert(front.contains(q[i]));
                    let w = choose|w: int| 0 <= w < front.len() && front[w] == q[i];
                    assert(s[w].cell <= s[s.len() - 1].cell);
                }
            } else {
                assert(r[i] == q[i] && r[j] == q[j]);
            }
        }
        assert forall|i: int| 0 <= i < r.len() implies (#[trigger] r[i]) == x || s.contains(r[i]) by {
            if i < q.len() {
                assert(r[i] == q[i]);
                if q[i] != x {
                    let w = choose|w: int| 0 <= w < front.len() && front[w] == q[i];
                    assert(s[w] == q[i]);
                }
            } else {
                assert(r[i] == s[s.len() - 1]);
            }
        }
    }
}

/// `s` with the lock `x` merged in at its end: a lock of the cell of the last lock joins it,
/// for writing if either writes; a lock of another cell follows.
pub open spec fn merged_with(s: Seq<FutureLock>, x: FutureLock) -> Seq<FutureLock> {
    if s.len() > 0 && s.last().cell == x.cell {
        s.drop_last().push(FutureLock { cell: x.cell, mutable: s.last().mutable || x.mutable })
    } else {
        s.push(x)
    }
}

/// The locks `s`, which are in the order of their cells, with the locks of one cell merged
/// into one: a cell that two slices share is locked once, for writing if either writes.
pub open spec fn merged(s: Seq<FutureLock>) -> Seq<FutureLock>
    decreases s.len(),
{
    if s.len() == 0 {
        Seq::empty()
    } else {
        merged_with(merged(s.drop_last()), s.last())
    }
}

/// Whether the cells of `s` go up along `s`: no cell stands twice.
pub open spec fn cells_go_up(s: Seq<FutureLock>) -> bool {
    forall|i: int, j: int| 0 <= i < j < s.len() ==> (#[trigger] s[i]).cell < (#[trigger] s[j]).cell
}

/// Whether some lock of `s` on the cell `cell` is for writing.
pub open spec fn writes_cell(s: Seq<FutureLock>, cell: usize) -> bool {
    exists|i: int| 0 <= i < s.len() && (#[trigger] s[i]).cell == cell && s[i].mutable
}

/// Whether some lock of `s` is on the cell `cell`.
pub open spec fn locks_cell(s: Seq<FutureLock>, cell: usize) -> bool {
    exists|i: int| 0 <= i < s.len() && (#[trigger] s[i]).cell == cell
}

/// The locks of a dispatch, one for each cell: the locks `locks`, which are in the order of
/// their cells, with the locks of one cell merged into one.
pub fn merge_locks(locks: &Vec<FutureLock>) -> (r: Vec<FutureLock>)
    ensures
        r@ == merged(locks@),
        cells_ascend(locks@) ==> cells_go_up(r@),
{
    let mut out: Vec<FutureLock> = Vec::new();
    let mut i: usize = 0;
    proof {
        assert(locks@.take(0).len() == 0);
    }
    while i < locks.len()
        invariant
            i <= locks.len(),
            out@ == merged(locks@.take(i as int)),
        decreases locks.len() - i,
    {
        let x = locks[i];
        proof {
            let t = locks@.take(i as int + 1);
            assert(t.drop_last() == locks@.take(i as int));
            assert(t.last() == x);
        }
        let n: usize = out.len();
        if n > 0 && out[n - 1].cell == x.cell {
            let mutable: bool = out[n - 1].mutable || x.mutable;
            let ghost before = out@;
            out.pop();
            out.push(FutureLock { cell: x.cell, mutable });
            proof {
                assert(out@ =~= merged_with(before, x));
            }
        } else {
            out.push(x);
        }
        i = i + 1;
    }
    proof {
        assert(locks@.take(locks.len() as int) == locks@);
        if cells_ascend(locks@) {
            lemma_merged(locks@);
        }
    }
    out
}

/// Merging locks that are in the order of their cells gives one lock for each cell, in the
/// order of the cells: each cell that is locked is locked once, and for writing exactly if
/// one of its locks is.
pub proof fn lemma_merged(s: Seq<FutureLock>)
    requires
        cells_ascend(s),
    ensures
        cells_go_up(merged(s)),
        s.len() > 0 ==> merged(s).len() > 0 && merged(s).last().cell == s.last().cell,
        forall|k: int|
            0 <= k < merged(s).len() ==> locks_cell(s, (#[trigger] merged(s)[k]).cell) && (merged(
                s,
            )[k].mutable <==> writes_cell(s, merged(s)[k].cell)),
        forall|i: int| 0 <= i < s.len() ==> locks_cell(merged(s), (#[trigger] s[i]).cell),
    decreases s.len(),
{
    if s.len() > 0 {
        let front = s.drop_last();
        let x = s.last();
        assert(cells_ascend(front)) by {
            assert forall|i: int, j: int| 0 <= i < j < front.len() implies (#[trigger] front[i]).cell <= (
            #[trigger] front[j]).cell by {
                assert(front[i] == s[i] && front[j] == s[j]);
            }
        }
        lemma_merged(front);
        let m = merged(front);
        let r = merged(s);
        assert(r == merged_with(m, x));
        let joins = m.len() > 0 && m.last().cell == x.cell;
        if front.len() > 0 {
            assert(front.last() == s[s.len() - 2]);
            assert(s[s.len() - 2].cell <= s[s.len() - 1].cell);
        }
        assert forall|i: int, j: int| 0 <= i < j < r.len() implies (#[trigger] r[i]).cell < (
        #[trigger] r[j]).cell by {
            if j == r.len() - 1 {
                if joins {
                    assert(r[i] == m[i]);
                    assert(m[i].cell < m[m.len() - 1].cell);
                } else {
                    assert(r[i] == m[i]);
                    if i < m.len() - 1 {
                        assert(m[i].cell < m[m.len() - 1].cell);
                    }
                }
            } else {
                assert(r[i] == m[i] && r[j] == m[j]);
            }
        }
        assert forall|k: int| 0 <= k < r.len() implies locks_cell(s, (#[trigger] r[k]).cell) && (
        r[k].mutable <==> writes_cell(s, r[k].cell)) by {
            if k == r.len() - 1 {
                assert(r[k].cell == x.cell);
                assert(s[s.len() - 1].cell == r[k].cell);
                if joins {
                    let c = x.cell;
                    if m.last().mutable {
                        let w = choose|w: int| 0 <= w < front.len() && (#[trigger] front[w]).cell == c && front[w].mutable;
                        assert(s[w].cell == c && s[w].mutable);
                    }
                    if x.mutable {
                        assert(s[s.len() - 1].cell == c && s[s.len() - 1].mutable);
                    }
                    if writes_cell(s, c) {
                        let w = choose|w: int| 0 <= w < s.len() && (#[trigger] s[w]).cell == c && s[w].mutable;
                        if w < front.len() {
                            assert(front[w].cell == c && front[w].mutable);
                            assert(writes_cell(front, c));
                        }
                    }
                } else {
                    let c = x.cell;
                    if writes_cell(s, c) {
                        let w = choose|w: int| 0 <= w < s.len() && (#[trigger] s[w]).cell == c && s[w].mutable;
                        if w < front.len() {
                            assert(front[w].cell == c);
                            assert(locks_cell(front, c));
                            let v = choose|v: int| 0 <= v < m.len() && (#[trigger] m[v]).cell == c;
                            if v < m.len() - 1 {
                                assert(m[v].cell < m[m.len() - 1].cell);
                            }
                            let u = choose|u: int| 0 <= u < front.len() && (#[trigger] front[u]).cell == m.last().cell;
                            assert(front[u] == s[u]);
                            assert(s[u].cell <= s[s.len() - 1].cell);
                            assert(false);
                        }
                    }
                    if x.mutable {
                        assert(s[s.len() - 1].cell == c && s[s.len() - 1].mutable);
                    }
                }
            } else {
                assert(r[k] == m[k]);
                let c = m[k].cell;
                let u = choose|u: int| 0 <= u < front.len() && (#[trigger] front[u]).cell == c;
                assert(s[u].cell == c);
                if m[k].mutable {
                    let w = choose|w: int| 0 <= w < front.len() && (#[trigger] front[w]).cell == c && front[w].mutable;
                    assert(s[w].cell == c && s[w].mutable);
                }
                if writes_cell(s, c) {
                    let w = choose|w: int| 0 <= w < s.len() && (#[trigger] s[w]).cell == c && s[w].mutable;
                    if w < front.len() {
                        assert(front[w].cell == c && front[w].mutable);
                        assert(writes_cell(front, c));
                    } else {
                        assert(x.cell == c);
                        if joins {
                            assert(m[k].cell < m[m.len() - 1].cell);
                        } else {
                            let v = choose|v: int| 0 <= v < front.len() && (#[trigger] front[v]).cell == m.last().cell;
                            assert(front[v] == s[v]);
                            assert(s[u].cell <= s[s.len() - 1].cell);
                            if k < m.len() - 1 {
                                assert(m[k].cell < m[m.len() - 1].cell);
                            }
                            assert(s[v].cell <= s[s.len() - 1].cell);
                            assert(false);
                        }
                        assert(false);
                    }
                }
            }
        }
        assert forall|i: int| 0 <= i < s.len() implies locks_cell(r, (#[trigger] s[i]).cell) by {
            if i == s.len() - 1 {
                assert(r[r.len() - 1].cell == x.cell);
            } else {
                assert(s[i] == front[i]);
                let v = choose|v: int| 0 <= v < m.len() && (#[trigger] m[v]).cell == front[i].cell;
                if joins && v == m.len() - 1 {
                    assert(r[r.len() - 1].cell == front[i].cell);
                } else {
                    assert(r[v] == m[v]);
                }
            }
        }
    }
}

/// The future that the cell of a lock holds after a dispatch whose operation has the future
/// `new`: a buffer that the dispatch writes gets the new future; a buffer that it only reads
/// keeps the one it had.
pub fn updated_future(lock: &FutureLock, current: WorkerFuture, new: &WorkerFuture) -> (r: WorkerFuture)
    ensures
        r == if lock.mutable { *new } else { current },
{
    if lock.mutable {
        new.duplicate()
    } else {
        current
    }
}

/// The futures that the cells of the locks `locks` hold after a dispatch that found them
/// holding `cells` and whose operation has the future `new`: the cell of each lock for
/// writing holds the new future, and every other cell the future it held.
pub open spec fn futures_after(locks: Seq<FutureLock>, cells: Seq<WorkerFuture>, new: WorkerFuture) -> Seq<
    WorkerFuture,
> {
    Seq::new(cells.len(), |i: int| if locks[i].mutable { new } else { cells[i] })
}

/// The futures that the cells of the locks hold after a dispatch. The futures `cells`, which
/// the dispatch found in the cells, are those that its operation waits for.
pub fn update_futures(locks: &Vec<FutureLock>, cells: &Vec<WorkerFuture>, new: &WorkerFuture) -> (r: Vec<
    WorkerFuture,
>)
    requires
        locks.len() == cells.len(),
    ensures
        r@ == futures_after(locks@, cells@, *new),
{
    let mut out: Vec<WorkerFuture> = Vec::new();
    let mut i: usize = 0;
    while i < cells.len()
        invariant
            i <= cells.len(),
            locks.len() == cells.len(),
            out@.len() == i,
            forall|j: int| 0 <= j < i ==> out@[j] == futures_after(locks@, cells@, *new)[j],
        decreases cells.len() - i,
    {
        let current = cells[i].duplicate();
        out.push(updated_future(&locks[i], current, new));
        i = i + 1;
    }
    proof {
        assert(out@ =~= futures_after(locks@, cells@, *new));
    }
    out
}

/// Dispatches chain their futures: after a dispatch that writes a cell, the cell holds the
/// future of its operation; that future is what the next dispatch on the cell finds, and so
/// what its operation waits for; and a dispatch that only reads a cell leaves the cell's
/// future to the dispatches after it.
pub proof fn lemma_futures_chain(
    first: Seq<FutureLock>,
    cells: Seq<WorkerFuture>,
    f1: WorkerFuture,
    second: Seq<FutureLock>,
    f2: WorkerFuture,
    i: int,
)
    requires
        first.len() == cells.len(),
        second.len() == cells.len(),
        0 <= i < cells.len(),
    ensures
        first[i].mutable ==> futures_after(first, cells, f1)[i] == f1,
        !first[i].mutable ==> futures_after(first, cells, f1)[i] == cells[i],
        second[i].mutable ==> futures_after(second, futures_after(first, cells, f1), f2)[i] == f2,
        first[i].mutable && !second[i].mutable ==> futures_after(
            second,
            futures_after(first, cells, f1),
            f2,
        )[i] == f1,
{
}

/// A dispatch of a kernel with given groups, no more than its device dispatches, on
/// arguments without a fault is planned, with those groups.
pub proof fn lemma_dispatch_planned(kernel: Kernel, args: Seq<KernelSliceArg>, values: Seq<ScalarElem>)
    requires
        arguments_error(
            kernel.inner.desc.push_descs@,
            kernel.inner.desc.slice_descs@,
            values,
            args,
            kernel.inner.device.id,
        ) is None,
        kernel.groups is Some,
        kernel.groups->0 <= kernel.inner.device.max_groups,
    ensures
        spec_dispatch(kernel, args, values) is Ok,
        spec_dispatch(kernel, args, values)->Ok_0.groups == kernel.groups->0,
{
}

/// What a dispatch gives back in the end. With debug printf on, the caller has waited for
/// the device: the error of the wait comes first, and a kernel that panicked is an error.
pub fn dispatch_result(debug_printf: bool, waited: Result<(), Error>, panicked: bool, name: &str) -> (r:
    Result<(), Error>)
    ensures
        !debug_printf ==> r is Ok,
        debug_printf && waited is Err ==> r == waited,
        debug_printf && waited is Ok && !panicked ==> r is Ok,
        debug_printf && waited is Ok && panicked ==> (r matches Err(Error::KernelPanic { name: n })
            && n@ == name@),
{
    if !debug_printf {
        return Ok(());
    }
    match waited {
        Err(e) => Err(e),
        Ok(_) => {
            if panicked {
                Err(Error::KernelPanic { name: name.to_owned() })
            } else {
                Ok(())
            }
        },
    }
}

} // verus!
