//! The errors of the runtime.
use vstd::prelude::*;
use crate::features::Features;

verus! {

/// The kind of memory that an allocation asks for.
#[derive(Clone, Copy, Debug, PartialEq, Eq, Structural)]
pub enum MemoryKind {
    /// Memory that the host can map.
    Host,
    /// Memory local to the device.
    Device,
}

/// Why a module could not be specialized.
#[derive(Clone, Copy, Debug, PartialEq, Eq, Structural)]
pub enum SpecError {
    /// The words are not a module that loads.
    InvalidModule,
    /// An instruction has fewer words than its opcode needs.
    Malformed,
    /// An instruction refers to a type or constant that no earlier instruction defines.
    UnknownId,
    /// A constant operation is applied to types that it is not folded for.
    TypeMismatch,
    /// A specialization constant does not have the width of the constant that it replaces.
    WidthMismatch,
    /// A constant operation with this opcode is not folded.
    Unsupported(u32),
    /// The result of a constant operation does not fit the type it is cast to.
    OutOfRange,
    /// A constant operation divides by zero.
    DivideByZero,
}

/// Why an argument of a host operation was refused.
#[derive(Clone, Copy, Debug, PartialEq, Eq, Structural)]
pub enum ArgumentError {
    /// The kernel does not take this many slices.
    SliceCount,
    /// The kernel does not take this many push constants.
    PushCount,
    /// The slice at this index does not have the scalar type that the kernel declares.
    SliceType(usize),
    /// The slice at this index is read-only where the kernel writes.
    SliceMutability(usize),
    /// The slice at this index is empty.
    SliceEmpty(usize),
    /// The slice at this index is not on a device.
    SliceOnHost(usize),
    /// The slice at this index is on another device.
    SliceDevice(usize),
    /// The slice at this index reaches beyond what a kernel can address.
    SliceRange(usize),
    /// The push constant at this index does not have the scalar type that the kernel declares.
    PushType(usize),
    /// More groups than the device dispatches at once.
    Groups { groups: u32, max_groups: u32 },
    /// More threads in a group than the device runs.
    Threads { threads: u32, max_threads: u32 },
    /// No group count was given and the kernel has no items to take it from.
    GroupsMissing,
    /// The specialization constants do not match the kernel's declaration.
    SpecConstants,
    /// The kernel was asked of the host, which runs none.
    HostDevice,
}

/// An error of a host operation.
#[derive(Debug, PartialEq, Eq)]
#[allow(inconsistent_fields)]
pub enum Error {
    /// The device was lost: a call into it failed, or the engine exited while an operation
    /// waited.
    DeviceLost { index: usize, handle: u64 },
    /// No chunk has room for the allocation and none can be added.
    Oom { kind: MemoryKind },
    /// The device lacks features that the kernel requires.
    FeatureUnsupported { required: Features, available: Features },
    /// The kernel panicked on the device.
    KernelPanic { name: String },
    /// The module could not be specialized.
    Spec { reason: SpecError },
    /// An argument was refused.
    InvalidArgument { reason: ArgumentError },
}

} // verus!
