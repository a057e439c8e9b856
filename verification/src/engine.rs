//! What an engine decides when it is made and while it waits: the features it enables, the
//! queue families it takes, the workers it starts, and when a wait is over.
use vstd::prelude::*;
use std::sync::atomic::AtomicBool;
use std::sync::atomic::Ordering;
use std::sync::Arc;
use crate::cache::KernelCache;
use crate::error::Error;
use crate::features::Features;
use crate::slab::BufferAllocator;
use crate::slab::MemoryType;
use crate::worker::WorkerState;

verus! {

/// Which device an engine drives: its index among the devices and its handle.
#[derive(Clone, Copy, Debug, PartialEq, Eq, Structural, Hash)]
pub struct DeviceId {
    pub index: usize,
    pub handle: u64,
}

/// What an engine is asked for.
#[derive(Clone, Copy, Debug, PartialEq, Eq, Structural)]
pub struct DeviceOptions {
    pub index: usize,
    pub optimal_features: Features,
}

/// The limits and settings of a device that kernels are built and dispatched against.
#[derive(Clone, Copy, Debug, PartialEq, Eq, Structural)]
pub struct DeviceInfo {
    pub id: DeviceId,
    pub compute_queues: usize,
    pub transfer_queues: usize,
    pub features: Features,
    pub max_groups: u32,
    pub max_threads: u32,
    pub default_threads: u32,
    pub debug_printf: bool,
}

/// The device features that the engine negotiates.
#[derive(Clone, Copy, Debug, PartialEq, Eq, Structural)]
pub struct DeviceFeatures {
    pub vulkan_memory_model: bool,
    pub storage_buffer8_bit_access: bool,
    pub storage_buffer16_bit_access: bool,
    pub shader_int8: bool,
    pub shader_int16: bool,
    pub shader_int64: bool,
    pub shader_float16: bool,
    pub shader_float64: bool,
}

/// A capability of a module that stands for a device feature.
#[derive(Clone, Copy, Debug, PartialEq, Eq, Structural)]
pub enum Capability {
    VulkanMemoryModel,
    StorageBuffer8BitAccess,
    StorageBuffer16BitAccess,
    Int8,
    Int16,
    Int64,
    Float16,
    Float64,
}

impl DeviceFeatures {
    /// No feature.
    pub open spec fn spec_none() -> DeviceFeatures {
        DeviceFeatures {
            vulkan_memory_model: false,
            storage_buffer8_bit_access: false,
            storage_buffer16_bit_access: false,
            shader_int8: false,
            shader_int16: false,
            shader_int64: false,
            shader_float16: false,
            shader_float64: false,
        }
    }

    /// The features with the one that `cap` stands for.
    pub open spec fn with(self, cap: Capability) -> DeviceFeatures {
        match cap {
            Capability::VulkanMemoryModel => DeviceFeatures { vulkan_memory_model: true, ..self },
            Capability::StorageBuffer8BitAccess => DeviceFeatures {
                storage_buffer8_bit_access: true,
                ..self
            },
            Capability::StorageBuffer16BitAccess => DeviceFeatures {
                storage_buffer16_bit_access: true,
                ..self
            },
            Capability::Int8 => DeviceFeatures { shader_int8: true, ..self },
            Capability::Int16 => DeviceFeatures { shader_int16: true, ..self },
            Capability::Int64 => DeviceFeatures { shader_int64: true, ..self },
            Capability::Float16 => DeviceFeatures { shader_float16: true, ..self },
            Capability::Float64 => DeviceFeatures { shader_float64: true, ..self },
        }
    }

    /// Whether the features have the one that `cap` stands for.
    pub open spec fn has(self, cap: Capability) -> bool {
        match cap {
            Capability::VulkanMemoryModel => self.vulkan_memory_model,
            Capability::StorageBuffer8BitAccess => self.storage_buffer8_bit_access,
            Capability::StorageBuffer16BitAccess => self.storage_buffer16_bit_access,
            Capability::Int8 => self.shader_int8,
            Capability::Int16 => self.shader_int16,
            Capability::Int64 => self.shader_int64,
            Capability::Float16 => self.shader_float16,
            Capability::Float64 => self.shader_float64,
        }
    }

    /// The features that `caps` stand for.
    pub open spec fn of_capabilities(caps: Seq<Capability>) -> DeviceFeatures
        decreases caps.len(),
    {
        if caps.len() == 0 {
            Self::spec_none()
        } else {
            Self::of_capabilities(caps.drop_last()).with(caps.last())
        }
    }

    /// The capabilities that stand for the features, in the order of the table.
    pub open spec fn capabilities(self) -> Seq<Capability> {
        capability_table().filter(self.holder())
    }

    /// The features as a predicate on capabilities.
    pub open spec fn holder(self) -> spec_fn(Capability) -> bool {
        |cap: Capability| self.has(cap)
    }

    /// What the engine enables: the memory model and what is asked for, as far as the device
    /// supports it.
    pub open spec fn spec_negotiate(supported: DeviceFeatures, optimal: Features) -> DeviceFeatures {
        DeviceFeatures {
            vulkan_memory_model: supported.vulkan_memory_model,
            storage_buffer8_bit_access: false,
            storage_buffer16_bit_access: false,
            shader_int8: supported.shader_int8 && optimal.shader_int8,
            shader_int16: supported.shader_int16 && optimal.shader_int16,
            shader_int64: supported.shader_int64 && optimal.shader_int64,
            shader_float16: supported.shader_float16 && optimal.shader_float16,
            shader_float64: supported.shader_float64 && optimal.shader_float64,
        }
    }

    /// The features that kernels may require, out of the device features.
    pub open spec fn spec_features(self) -> Features {
        Features {
            shader_int8: self.shader_int8,
            shader_int16: self.shader_int16,
            shader_int64: self.shader_int64,
            shader_float16: self.shader_float16,
            shader_float64: self.shader_float64,
        }
    }

    /// No feature.
    pub fn none() -> (r: DeviceFeatures)
        ensures
            r == Self::spec_none(),
    {
        DeviceFeatures {
            vulkan_memory_model: false,
            storage_buffer8_bit_access: false,
            storage_buffer16_bit_access: false,
            shader_int8: false,
            shader_int16: false,
            shader_int64: false,
            shader_float16: false,
            shader_float64: false,
        }
    }

    /// What the engine enables on a device that supports `supported`, asked for `optimal`.
    pub fn negotiate(supported: &DeviceFeatures, optimal: &Features) -> (r: DeviceFeatures)
        ensures
            r == Self::spec_negotiate(*supported, *optimal),
            optimal.spec_contains(r.spec_features()),
    {
        DeviceFeatures {
            vulkan_memory_model: supported.vulkan_memory_model,
            storage_buffer8_bit_access: false,
            storage_buffer16_bit_access: false,
            shader_int8: supported.shader_int8 && optimal.shader_int8,
            shader_int16: supported.shader_int16 && optimal.shader_int16,
            shader_int64: supported.shader_int64 && optimal.shader_int64,
            shader_float16: supported.shader_float16 && optimal.shader_float16,
            shader_float64: supported.shader_float64 && optimal.shader_float64,
        }
    }

    /// The features that kernels may require, out of the device features.
    pub fn features(&self) -> (r: Features)
        ensures
            r == self.spec_features(),
    {
        Features {
            shader_int8: self.shader_int8,
            shader_int16: self.shader_int16,
            shader_int64: self.shader_int64,
            shader_float16: self.shader_float16,
            shader_float64: self.shader_float64,
        }
    }
}

/// The device features that the capabilities `caps` stand for.
pub fn capabilities_to_features(caps: &[Capability]) -> (r: DeviceFeatures)
    ensures
        r == DeviceFeatures::of_capabilities(caps@),
{
    let mut f = DeviceFeatures::none();
    let mut i: usize = 0;
    proof {
        assert(caps@.take(0).len() == 0);
    }
    while i < caps.len()
        invariant
            i <= caps.len(),
            f == DeviceFeatures::of_capabilities(caps@.take(i as int)),
        decreases caps.len() - i,
    {
        proof {
            let t = caps@.take(i as int + 1);
            assert(t.drop_last() == caps@.take(i as int));
            assert(t.last() == caps@[i as int]);
        }
        match caps[i] {
            Capability::VulkanMemoryModel => {
                f.vulkan_memory_model = true;
            },
            Capability::StorageBuffer8BitAccess => {
                f.storage_buffer8_bit_access = true;
            },
            Capability::StorageBuffer16BitAccess => {
                f.storage_buffer16_bit_access = true;
            },
            Capability::Int8 => {
                f.shader_int8 = true;
            },
            Capability::Int16 => {
                f.shader_int16 = true;
            },
            Capability::Int64 => {
                f.shader_int64 = true;
            },
            Capability::Float16 => {
                f.shader_float16 = true;
            },
            Capability::Float64 => {
                f.shader_float64 = true;
            },
        }
        i = i + 1;
    }
    proof {
        assert(caps@.take(caps.len() as int) == caps@);
    }
    f
}

/// The capabilities that stand for a feature, in the order in which they are listed.
pub open spec fn capability_table() -> Seq<Capability> {
    seq![
        Capability::VulkanMemoryModel,
        Capability::StorageBuffer8BitAccess,
        Capability::StorageBuffer16BitAccess,
        Capability::Int8,
        Capability::Int16,
        Capability::Int64,
        Capability::Float16,
        Capability::Float64,
    ]
}

/// Whether the device features `f` have the one that `cap` stands for.
pub fn has_capability(f: &DeviceFeatures, cap: Capability) -> (r: bool)
    ensures
        r == f.has(cap),
{
    match cap {
        Capability::VulkanMemoryModel => f.vulkan_memory_model,
        Capability::StorageBuffer8BitAccess => f.storage_buffer8_bit_access,
        Capability::StorageBuffer16BitAccess => f.storage_buffer16_bit_access,
        Capability::Int8 => f.shader_int8,
        Capability::Int16 => f.shader_int16,
        Capability::Int64 => f.shader_int64,
        Capability::Float16 => f.shader_float16,
        Capability::Float64 => f.shader_float64,
    }
}

/// The capabilities that stand for the device features `f`.
pub fn features_to_capabilities(f: &DeviceFeatures) -> (r: Vec<Capability>)
    ensures
        r@ == f.capabilities(),
{
    let mut table: Vec<Capability> = Vec::new();
    table.push(Capability::VulkanMemoryModel);
    table.push(Capability::StorageBuffer8BitAccess);
    table.push(Capability::StorageBuffer16BitAccess);
    table.push(Capability::Int8);
    table.push(Capability::Int16);
    table.push(Capability::Int64);
    table.push(Capability::Float16);
    table.push(Capability::Float64);
    assert(table@ =~= capability_table());
    let ghost p = f.holder();
    let mut caps: Vec<Capability> = Vec::new();
    let mut i: usize = 0;
    proof {
        reveal(Seq::filter);
        assert(table@.take(0).filter(p) =~= Seq::empty());
    }
    while i < table.len()
        invariant
            i <= table.len(),
            p == f.holder(),
            caps@ == table@.take(i as int).filter(p),
        decreases table.len() - i,
    {
        proof {
            assert(table@.take(i as int + 1) == table@.take(i as int).push(table@[i as int]));
            table@.take(i as int).lemma_filter_push(table@[i as int], p);
        }
        if has_capability(f, table[i]) {
            caps.push(table[i]);
        }
        i = i + 1;
    }
    proof {
        assert(table@.take(table.len() as int) == table@);
    }
    caps
}

/// The features that a list of capabilities stands for have a capability exactly when the
/// list holds it.
pub proof fn lemma_of_capabilities(caps: Seq<Capability>, cap: Capability)
    ensures
        DeviceFeatures::of_capabilities(caps).has(cap) <==> caps.contains(cap),
    decreases caps.len(),
{
    if caps.len() > 0 {
        lemma_of_capabilities(caps.drop_last(), cap);
        if caps.drop_last().contains(cap) {
            let w = choose|w: int| 0 <= w < caps.drop_last().len() && caps.drop_last()[w] == cap;
            assert(caps[w] == cap);
        }
        if caps.contains(cap) {
            let w = choose|w: int| 0 <= w < caps.len() && caps[w] == cap;
            if w < caps.len() - 1 {
                assert(caps.drop_last()[w] == cap);
            }
        }
    }
}

/// The capabilities of features are those of the table that the features have.
pub proof fn lemma_capabilities(f: DeviceFeatures, cap: Capability)
    ensures
        f.capabilities().contains(cap) <==> f.has(cap),
{
    broadcast use vstd::seq_lib::group_filter_ensures;

    let t = capability_table();
    let p = f.holder();
    let k: int = match cap {
        Capability::VulkanMemoryModel => 0,
        Capability::StorageBuffer8BitAccess => 1,
        Capability::StorageBuffer16BitAccess => 2,
        Capability::Int8 => 3,
        Capability::Int16 => 4,
        Capability::Int64 => 5,
        Capability::Float16 => 6,
        Capability::Float64 => 7,
    };
    assert(t[k] == cap);
    assert(t.contains(cap));
    if f.has(cap) {
        assert(p(t[k]));
        assert(t.filter(p).contains(t[k]));
    }
    if f.capabilities().contains(cap) {
        let w = choose|w: int| 0 <= w < t.filter(p).len() && t.filter(p)[w] == cap;
        assert(p(t.filter(p)[w]));
    }
}

/// Features, to their capabilities and back, are the same features.
pub proof fn lemma_capabilities_round_trip(f: DeviceFeatures)
    ensures
        DeviceFeatures::of_capabilities(f.capabilities()) == f,
{
    let caps = f.capabilities();
    let g = DeviceFeatures::of_capabilities(caps);
    assert forall|cap: Capability| g.has(cap) == f.has(cap) by {
        lemma_of_capabilities(caps, cap);
        lemma_capabilities(f, cap);
    }
    assert(g.has(Capability::VulkanMemoryModel) == f.has(Capability::VulkanMemoryModel));
    assert(g.has(Capability::StorageBuffer8BitAccess) == f.has(Capability::StorageBuffer8BitAccess));
    assert(g.has(Capability::StorageBuffer16BitAccess) == f.has(
        Capability::StorageBuffer16BitAccess,
    ));
    assert(g.has(Capability::Int8) == f.has(Capability::Int8));
    assert(g.has(Capability::Int16) == f.has(Capability::Int16));
    assert(g.has(Capability::Int64) == f.has(Capability::Int64));
    assert(g.has(Capability::Float16) == f.has(Capability::Float16));
    assert(g.has(Capability::Float64) == f.has(Capability::Float64));
}

/// What a queue family of the device can do.
#[derive(Clone, Copy, Debug, PartialEq, Eq, Structural)]
pub struct QueueFamily {
    pub compute: bool,
    pub graphics: bool,
    pub transfer: bool,
}

impl QueueFamily {
    /// A family that transfers and does nothing else.
    pub open spec fn transfer_only(self) -> bool {
        self.transfer && !self.compute && !self.graphics
    }
}

/// The indices of the compute families among the first `n` of `f` that do graphics, or
/// that do none, as `graphics` says, in order.
pub open spec fn compute_picks(f: Seq<QueueFamily>, graphics: bool, n: int) -> Seq<u32>
    decreases n,
{
    if n <= 0 {
        Seq::empty()
    } else if f[n - 1].compute && f[n - 1].graphics == graphics {
        compute_picks(f, graphics, n - 1).push((n - 1) as u32)
    } else {
        compute_picks(f, graphics, n - 1)
    }
}

/// The compute families of `f`: those without graphics first.
pub open spec fn compute_order(f: Seq<QueueFamily>) -> Seq<u32> {
    compute_picks(f, false, f.len() as int) + compute_picks(f, true, f.len() as int)
}

/// The first family from `k` on that only transfers, if there is one.
pub open spec fn dedicated_transfer(f: Seq<QueueFamily>, k: int) -> Option<u32>
    decreases f.len() - k,
{
    if k < 0 || k >= f.len() {
        None
    } else if f[k].transfer_only() {
        Some(k as u32)
    } else {
        dedicated_transfer(f, k + 1)
    }
}

/// The families that an engine takes queues from.
#[derive(Debug)]
pub struct QueuePlan {
    /// The compute families, the preferred first.
    pub compute_families: Vec<u32>,
    /// The family for transfers, where one only transfers; else the first compute queue
    /// transfers too.
    pub transfer_family: Option<u32>,
}

/// The plan for the families `f`, if any of them computes: with a dedicated transfer family
/// every compute family in order of preference, without one the first of them alone.
pub open spec fn spec_plan_queues(f: Seq<QueueFamily>) -> Option<(Seq<u32>, Option<u32>)> {
    let order = compute_order(f);
    let transfer = dedicated_transfer(f, 0);
    if f.len() > u32::MAX || order.len() == 0 {
        None
    } else if transfer is Some {
        Some((order, transfer))
    } else {
        Some((order.take(1), transfer))
    }
}

/// The indices of the compute families of `f` that do graphics, or that do none.
pub fn pick_compute(f: &Vec<QueueFamily>, graphics: bool, out: &mut Vec<u32>)
    requires
        f.len() <= u32::MAX,
    ensures
        final(out)@ == old(out)@ + compute_picks(f@, graphics, f.len() as int),
{
    let mut i: usize = 0;
    proof {
        assert(out@ =~= old(out)@ + compute_picks(f@, graphics, 0));
    }
    while i < f.len()
        invariant
            i <= f.len(),
            f.len() <= u32::MAX,
            out@ == old(out)@ + compute_picks(f@, graphics, i as int),
        decreases f.len() - i,
    {
        if f[i].compute && f[i].graphics == graphics {
            out.push(i as u32);
            proof {
                assert(out@ =~= old(out)@ + compute_picks(f@, graphics, i as int + 1));
            }
        }
        i = i + 1;
    }
}

/// Chooses the queue families of an engine; `None` where no family computes.
pub fn plan_queues(f: &Vec<QueueFamily>) -> (r: Option<QueuePlan>)
    ensures
        match r {
            Some(p) => spec_plan_queues(f@) == Some((p.compute_families@, p.transfer_family)),
            None => spec_plan_queues(f@) is None,
        },
{
    if f.len() > u32::MAX as usize {
        return None;
    }
    let mut order: Vec<u32> = Vec::new();
    pick_compute(f, false, &mut order);
    pick_compute(f, true, &mut order);
    assert(order@ =~= compute_order(f@));
    if order.len() == 0 {
        return None;
    }
    let mut transfer: Option<u32> = None;
    let mut k: usize = 0;
    while k < f.len()
        invariant_except_break
            transfer is None,
            dedicated_transfer(f@, 0) == dedicated_transfer(f@, k as int),
        invariant
            k <= f.len(),
            f.len() <= u32::MAX,
        ensures
            transfer == dedicated_transfer(f@, 0),
        decreases f.len() - k,
    {
        if f[k].transfer && !f[k].compute && !f[k].graphics {
            transfer = Some(k as u32);
            break ;
        }
        k = k + 1;
    }
    if transfer.is_none() {
        order.truncate(1);
        assert(order@ =~= compute_order(f@).take(1));
    }
    Some(QueuePlan { compute_families: order, transfer_family: transfer })
}

/// Every family that `compute_picks` gives is a compute family of `f` with that graphics
/// flag.
pub proof fn lemma_compute_picks(f: Seq<QueueFamily>, graphics: bool, n: int, j: int)
    requires
        0 <= n <= f.len() <= u32::MAX,
        0 <= j < compute_picks(f, graphics, n).len(),
    ensures
        0 <= compute_picks(f, graphics, n)[j] < n,
        f[compute_picks(f, graphics, n)[j] as int].compute,
        f[compute_picks(f, graphics, n)[j] as int].graphics == graphics,
    decreases n,
{
    if n > 0 {
        let rest = compute_picks(f, graphics, n - 1);
        if j < rest.len() {
            lemma_compute_picks(f, graphics, n - 1, j);
        }
    }
}

/// In the order of preference every family computes, and none that does graphics stands
/// before one that does not.
pub proof fn lemma_compute_order(f: Seq<QueueFamily>, i: int, j: int)
    requires
        f.len() <= u32::MAX,
        0 <= i <= j < compute_order(f).len(),
    ensures
        0 <= compute_order(f)[i] < f.len(),
        f[compute_order(f)[i] as int].compute,
        f[compute_order(f)[i] as int].graphics ==> f[compute_order(f)[j] as int].graphics,
{
    let a = compute_picks(f, false, f.len() as int);
    let b = compute_picks(f, true, f.len() as int);
    if i < a.len() {
        lemma_compute_picks(f, false, f.len() as int, i);
    } else {
        lemma_compute_picks(f, true, f.len() as int, i - a.len());
        lemma_compute_picks(f, true, f.len() as int, j - a.len());
    }
}

/// What a worker is made with.
#[derive(Clone, Copy, Debug, PartialEq, Eq, Structural)]
pub struct WorkerSpec {
    /// Which of the engine's queues the worker owns, the compute queues counted first.
    pub queue: usize,
    /// Whether the worker computes, and so has a descriptor pool.
    pub compute: bool,
    /// Whether the worker transfers, and so has a staging buffer.
    pub staging: bool,
}

/// Worker `i` of an engine with `compute` compute queues, with or without a transfer queue:
/// two workers to a queue; the compute workers transfer where no queue is for transfers alone.
pub open spec fn spec_worker(compute: int, transfer: bool, i: int) -> WorkerSpec {
    if i < 2 * compute {
        WorkerSpec { queue: (i / 2) as usize, compute: true, staging: !transfer }
    } else {
        WorkerSpec { queue: compute as usize, compute: false, staging: true }
    }
}

/// The workers of an engine.
pub open spec fn spec_workers(compute: int, transfer: bool) -> Seq<WorkerSpec> {
    Seq::new((2 * compute + if transfer { 2int } else { 0int }) as nat, |i: int| spec_worker(compute, transfer, i))
}

/// The workers that an engine with the queues of `plan` starts.
pub fn plan_workers(plan: &QueuePlan) -> (r: Vec<WorkerSpec>)
    ensures
        r@ == spec_workers(plan.compute_families@.len() as int, plan.transfer_family is Some),
{
    let n: usize = plan.compute_families.len();
    let transfer: bool = plan.transfer_family.is_some();
    let mut out: Vec<WorkerSpec> = Vec::new();
    let mut q: usize = 0;
    while q < n
        invariant
            q <= n,
            n == plan.compute_families@.len(),
            out@.len() == 2 * q,
            forall|i: int| 0 <= i < out@.len() ==> out@[i] == spec_worker(n as int, transfer, i),
        decreases n - q,
    {
        let w = WorkerSpec { queue: q, compute: true, staging: !transfer };
        out.push(w);
        out.push(w);
        q = q + 1;
    }
    if transfer {
        let w = WorkerSpec { queue: n, compute: false, staging: true };
        out.push(w);
        out.push(w);
    }
    proof {
        assert(out@ =~= spec_workers(n as int, transfer));
    }
    out
}

/// The device at `index` among `devices` devices, or the error of an index out of range.
pub fn select_device(index: usize, devices: usize) -> (r: Result<usize, DeviceIndexOutOfRange>)
    ensures
        r == if index < devices {
            Ok::<usize, DeviceIndexOutOfRange>(index)
        } else {
            Err::<usize, DeviceIndexOutOfRange>(DeviceIndexOutOfRange { index, devices })
        },
{
    if index < devices {
        Ok(index)
    } else {
        Err(DeviceIndexOutOfRange { index, devices })
    }
}

/// No device has the index that an engine was asked for.
#[derive(Clone, Copy, Debug, PartialEq, Eq, Structural)]
pub struct DeviceIndexOutOfRange {
    pub index: usize,
    pub devices: usize,
}

/// What a wait does next.
#[derive(Clone, Copy, Debug, PartialEq, Eq, Structural)]
pub enum WaitStep {
    /// Every worker has completed what it had been handed when the wait began.
    Done,
    /// The engine has exited: the device is lost.
    Lost,
    /// Some worker is behind: sleep and look again.
    Sleep,
}

/// Whether every worker has completed as much as `pending` asks of it.
pub open spec fn all_completed(pending: Seq<u64>, completed: Seq<u64>) -> bool {
    forall|i: int|
        0 <= i < pending.len() && i < completed.len() ==> (#[trigger] completed[i]) >= pending[i]
}

/// What a wait does next, given what each worker had been handed when the wait began, what
/// each has completed by now, and whether the engine has exited.
pub open spec fn spec_wait_step(pending: Seq<u64>, completed: Seq<u64>, exited: bool) -> WaitStep {
    if exited {
        WaitStep::Lost
    } else if all_completed(pending, completed) {
        WaitStep::Done
    } else {
        WaitStep::Sleep
    }
}

/// Decides what a wait does next. The wait is over only when every worker has completed
/// what it had been handed when the wait began.
pub fn wait_step(pending: &[u64], completed: &[u64], exited: bool) -> (r: WaitStep)
    ensures
        r == spec_wait_step(pending@, completed@, exited),
        r == WaitStep::Done ==> all_completed(pending@, completed@),
{
    if exited {
        return WaitStep::Lost;
    }
    let mut i: usize = 0;
    while i < pending.len() && i < completed.len()
        invariant
            !exited,
            forall|j: int| 0 <= j < i ==> completed@[j] >= pending@[j],
        decreases pending.len() - i,
    {
        if completed[i] < pending[i] {
            assert(!(completed@[i as int] >= pending@[i as int]));
            return WaitStep::Sleep;
        }
        i = i + 1;
    }
    WaitStep::Done
}

/// What a wait gives back after a step: nothing yet where it sleeps, else how it ended.
pub open spec fn spec_wait_result(step: WaitStep, id: DeviceId) -> Option<Result<(), Error>> {
    match step {
        WaitStep::Done => Some(Ok(())),
        WaitStep::Lost => Some(Err(Error::DeviceLost { index: id.index, handle: id.handle })),
        WaitStep::Sleep => None,
    }
}

/// What a wait gives back when it ends: the device is lost where the engine has exited.
pub fn wait_result(step: WaitStep, id: DeviceId) -> (r: Option<Result<(), Error>>)
    ensures
        r == spec_wait_result(step, id),
{
    match step {
        WaitStep::Done => Some(Ok(())),
        WaitStep::Lost => Some(Err(Error::DeviceLost { index: id.index, handle: id.handle })),
        WaitStep::Sleep => None,
    }
}

/// What an operation of the caller begins with: the loss of the device is its error once the
/// engine has exited.
pub fn alive_result(exited: bool, id: DeviceId) -> (r: Result<(), Error>)
    ensures
        r == if exited {
            Err::<(), Error>(Error::DeviceLost { index: id.index, handle: id.handle })
        } else {
            Ok::<(), Error>(())
        },
{
    if exited {
        Err(Error::DeviceLost { index: id.index, handle: id.handle })
    } else {
        Ok(())
    }
}

/// What an engine is made of, as the device reports it.
#[derive(Debug)]
pub struct DeviceReport {
    /// How many devices there are.
    pub devices: usize,
    /// The handle of the device that was asked for.
    pub handle: u64,
    pub supported: DeviceFeatures,
    pub families: Vec<QueueFamily>,
    pub memory_types: Vec<MemoryType>,
    pub max_groups: u32,
    pub max_threads: u32,
    pub default_threads: u32,
    pub debug_printf: bool,
}

/// Why no engine could be made.
#[derive(Clone, Copy, Debug, PartialEq, Eq, Structural)]
pub enum EngineError {
    /// No device has the index that was asked for.
    IndexOutOfRange(DeviceIndexOutOfRange),
    /// The device has no queue family that computes.
    NoCompute { index: usize },
}

/// The engine of a device: what it is and can do, the queue families it took, the counters
/// of its workers, the flag that a worker raises when it exits, its built kernels and its
/// memory.
pub struct Engine {
    pub info: DeviceInfo,
    pub device_features: DeviceFeatures,
    pub compute_families: Vec<u32>,
    pub transfer_family: Option<u32>,
    pub workers: Vec<WorkerSpec>,
    pub worker_states: Vec<WorkerState>,
    pub exited: Arc<AtomicBool>,
    pub kernels: KernelCache,
    pub allocator: BufferAllocator,
}

/// What making an engine gives, but for its cache and counters.
pub open spec fn spec_engine(options: DeviceOptions, report: DeviceReport) -> Result<
    (DeviceInfo, Seq<u32>, Option<u32>),
    EngineError,
> {
    if options.index >= report.devices {
        Err(
            EngineError::IndexOutOfRange(
                DeviceIndexOutOfRange { index: options.index, devices: report.devices },
            ),
        )
    } else {
        match spec_plan_queues(report.families@) {
            None => Err(EngineError::NoCompute { index: options.index }),
            Some((compute, transfer)) => Ok(
                (
                    DeviceInfo {
                        id: DeviceId { index: options.index, handle: report.handle },
                        compute_queues: compute.len() as usize,
                        transfer_queues: if transfer is Some { 1 } else { 0 },
                        features: DeviceFeatures::spec_negotiate(
                            report.supported,
                            options.optimal_features,
                        ).spec_features(),
                        max_groups: report.max_groups,
                        max_threads: report.max_threads,
                        default_threads: report.default_threads,
                        debug_printf: report.debug_printf,
                    },
                    compute,
                    transfer,
                ),
            ),
        }
    }
}

impl Engine {
    /// Makes the engine of the device that `options` ask for, from what the device reports:
    /// the features are negotiated, the queue families chosen, two workers planned for each
    /// queue, and the allocator and the cache made empty.
    pub fn new(options: DeviceOptions, report: &DeviceReport) -> (r: Result<Engine, EngineError>)
        ensures
            match r {
                Ok(e) => {
                    &&& spec_engine(options, *report) == Ok::<
                        (DeviceInfo, Seq<u32>, Option<u32>),
                        EngineError,
                    >((e.info, e.compute_families@, e.transfer_family))
                    &&& e.device_features == DeviceFeatures::spec_negotiate(
                        report.supported,
                        options.optimal_features,
                    )
                    &&& e.workers@ == spec_workers(
                        e.compute_families@.len() as int,
                        e.transfer_family is Some,
                    )
                    &&& e.worker_states@.len() == e.workers@.len()
                    &&& e.allocator.wf()
                    &&& e.allocator.fresh_for(report.memory_types@)
                    &&& e.kernels.entries() == Map::<
                        (usize, Seq<u8>),
                        Arc<crate::kernel::RawKernel>,
                    >::empty()
                },
                Err(e) => spec_engine(options, *report) == Err::<
                    (DeviceInfo, Seq<u32>, Option<u32>),
                    EngineError,
                >(e),
            },
    {
        let index = match select_device(options.index, report.devices) {
            Ok(i) => i,
            Err(e) => { return Err(EngineError::IndexOutOfRange(e)); },
        };
        let plan = match plan_queues(&report.families) {
            Some(p) => p,
            None => { return Err(EngineError::NoCompute { index }); },
        };
        let device_features = DeviceFeatures::negotiate(&report.supported, &options.optimal_features);
        let workers = plan_workers(&plan);
        let mut worker_states: Vec<WorkerState> = Vec::new();
        let mut i: usize = 0;
        while i < workers.len()
            invariant
                i <= workers.len(),
                worker_states@.len() == i,
            decreases workers.len() - i,
        {
            worker_states.push(WorkerState::new());
            i = i + 1;
        }
        let info = DeviceInfo {
            id: DeviceId { index, handle: report.handle },
            compute_queues: plan.compute_families.len(),
            transfer_queues: if plan.transfer_family.is_some() { 1 } else { 0 },
            features: device_features.features(),
            max_groups: report.max_groups,
            max_threads: report.max_threads,
            default_threads: report.default_threads,
            debug_printf: report.debug_printf,
        };
        Ok(
            Engine {
                info,
                device_features,
                compute_families: plan.compute_families,
                transfer_family: plan.transfer_family,
                workers,
                worker_states,
                exited: Arc::new(AtomicBool::new(false)),
                kernels: KernelCache::new(),
                allocator: BufferAllocator::new(&report.memory_types),
            },
        )
    }

    /// The handle of the engine's device.
    pub fn handle(&self) -> (r: u64)
        ensures
            r == self.info.id.handle,
    {
        self.info.id.handle
    }

    /// What the engine's device is and can do.
    pub fn info(&self) -> (r: &DeviceInfo)
        ensures
            *r == self.info,
    {
        &self.info
    }

    /// Whether a worker of the engine has exited, at this moment.
    pub fn has_exited(&self) -> (r: bool) {
        self.exited.load(Ordering::SeqCst)
    }

    /// Fails with the loss of the device where a worker of the engine has exited, as every
    /// operation of the caller does from then on.
    pub fn check_alive(&self) -> (r: Result<(), Error>)
        ensures
            r matches Err(e) ==> e == (Error::DeviceLost {
                index: self.info.id.index,
                handle: self.info.id.handle,
            }),
    {
        alive_result(self.has_exited(), self.info.id)
    }

    /// How many operations each worker has been handed, at this moment: what a wait that
    /// begins now waits for.
    pub fn pending(&self) -> (r: Vec<u64>)
        ensures
            r@.len() == self.worker_states@.len(),
    {
        let mut out: Vec<u64> = Vec::new();
        let mut i: usize = 0;
        while i < self.worker_states.len()
            invariant
                i <= self.worker_states.len(),
                out@.len() == i,
            decreases self.worker_states.len() - i,
        {
            out.push(self.worker_states[i].pending());
            i = i + 1;
        }
        out
    }

    /// How many operations each worker has completed, at this moment.
    pub fn completed(&self) -> (r: Vec<u64>)
        ensures
            r@.len() == self.worker_states@.len(),
    {
        let mut out: Vec<u64> = Vec::new();
        let mut i: usize = 0;
        while i < self.worker_states.len()
            invariant
                i <= self.worker_states.len(),
                out@.len() == i,
            decreases self.worker_states.len() - i,
        {
            out.push(self.worker_states[i].completed());
            i = i + 1;
        }
        out
    }

    /// One look of a wait that began when the workers had been handed `pending`: the wait is
    /// over when each worker has completed that much, and fails when the engine has exited;
    /// else the caller sleeps and looks again. What the look finds depends on the moment: the
    /// result is the answer of `wait_step` to what some look at the workers, one count for
    /// each, and at the flag can find.
    pub fn wait_poll(&self, pending: &Vec<u64>) -> (r: Option<Result<(), Error>>)
        ensures
            exists|completed: Seq<u64>, exited: bool|
                completed.len() == self.worker_states@.len() && r == spec_wait_result(
                    #[trigger] spec_wait_step(pending@, completed, exited),
                    self.info.id,
                ),
            r matches Some(Err(e)) ==> e == (Error::DeviceLost {
                index: self.info.id.index,
                handle: self.info.id.handle,
            }),
    {
        let exited = self.has_exited();
        let completed = self.completed();
        let step = wait_step(pending.as_slice(), completed.as_slice(), exited);
        let r = wait_result(step, self.info.id);
        proof {
            assert(completed@.len() == self.worker_states@.len() && r == spec_wait_result(
                spec_wait_step(pending@, completed@, exited),
                self.info.id,
            ));
        }
        r
    }
}

} // verus!
