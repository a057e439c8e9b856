//! Kernels as they are declared, built and prepared for dispatch.
use vstd::prelude::*;
use vstd::string::StringSliceAdditionalSpecFns;
use std::io::Read;
use std::sync::Arc;
use crate::buffer::DeviceBuffer;
use crate::desc::bytes_eq;
use crate::desc::copy_vec;
use crate::desc::key_bytes;
use crate::desc::spec_types;
use crate::desc::value_types;
use crate::desc::KernelKey;
use crate::desc::PushDesc;
use crate::desc::SliceDesc;
use crate::desc::SpecDesc;
use crate::engine::DeviceId;
use crate::engine::DeviceInfo;
use crate::error::ArgumentError;
use crate::error::Error;
use crate::features::Features;
use crate::scalar::ScalarElem;
use crate::scalar::ScalarType;

verus! {

/// A kernel as its declaration is embedded in the program: its name, its module in gzip form,
/// the features it requires, whether it is safe to dispatch, and what it takes.
#[derive(Clone, Copy)]
pub struct KernelDesc {
    pub name: &'static str,
    pub spirv: &'static [u8],
    pub features: Features,
    pub safe: bool,
    pub spec_descs: &'static [SpecDesc],
    pub slice_descs: &'static [SliceDesc],
    pub push_descs: &'static [PushDesc],
}

/// The parts of a `KernelDesc`.
#[derive(Clone, Copy)]
pub struct KernelDescArgs {
    pub name: &'static str,
    pub spirv: &'static [u8],
    pub features: Features,
    pub safe: bool,
    pub spec_descs: &'static [SpecDesc],
    pub slice_descs: &'static [SliceDesc],
    pub push_descs: &'static [PushDesc],
}

/// Whether a kernel is declared safe to dispatch.
#[derive(Clone, Copy, Debug, PartialEq, Eq, Structural)]
pub enum Safety {
    Safe,
    Unsafe,
}

impl Safety {
    /// Whether the kernel is declared safe.
    pub fn is_safe(&self) -> (r: bool)
        ensures
            r == (*self == Safety::Safe),
    {
        match self {
            Safety::Safe => true,
            Safety::Unsafe => false,
        }
    }
}

/// Marks a builder type by whether its kernel is specialized. Only the type is used.
#[derive(Clone, Copy, Debug)]
pub enum Specialized<const S: bool> {
    Mark,
}

/// Marks a kernel type by whether its groups are given. Only the type is used.
#[derive(Clone, Copy, Debug)]
pub enum WithGroups<const G: bool> {
    Mark,
}

/// Whether the specialization constants `a` and `b` match one by one.
pub open spec fn spec_descs_match(a: Seq<SpecDesc>, b: Seq<SpecDesc>) -> bool {
    a.len() == b.len() && forall|i: int| 0 <= i < a.len() ==> (#[trigger] a[i]).matches(b[i])
}

/// Whether the slices `a` and `b` match one by one.
pub open spec fn slice_descs_match(a: Seq<SliceDesc>, b: Seq<SliceDesc>) -> bool {
    a.len() == b.len() && forall|i: int| 0 <= i < a.len() ==> (#[trigger] a[i]).matches(b[i])
}

/// Whether the push constants `a` and `b` match one by one.
pub open spec fn push_descs_match(a: Seq<PushDesc>, b: Seq<PushDesc>) -> bool {
    a.len() == b.len() && forall|i: int| 0 <= i < a.len() ==> (#[trigger] a[i]).matches(b[i])
}

/// The first index from `k` on of a kernel whose name is `name`, byte for byte.
pub open spec fn index_of_name(kernels: Seq<KernelDesc>, name: Seq<u8>, k: int) -> Option<int>
    decreases kernels.len() - k,
{
    if k < 0 || k >= kernels.len() {
        None
    } else if kernels[k].name.spec_bytes() == name {
        Some(k)
    } else {
        index_of_name(kernels, name, k + 1)
    }
}

/// The first of `kernels` with the name `name`.
pub fn find_kernel(name: &str, kernels: &[KernelDesc]) -> (r: Option<KernelDesc>)
    ensures
        r == match index_of_name(kernels@, name.spec_bytes(), 0) {
            Some(i) => Some(kernels@[i]),
            None => None,
        },
{
    let mut i: usize = 0;
    while i < kernels.len()
        invariant
            i <= kernels.len(),
            index_of_name(kernels@, name.spec_bytes(), 0) == index_of_name(
                kernels@,
                name.spec_bytes(),
                i as int,
            ),
        decreases kernels.len() - i,
    {
        if bytes_eq(name.as_bytes(), kernels[i].name.as_bytes()) {
            return Some(kernels[i]);
        }
        i = i + 1;
    }
    None
}

/// Hands on the kernel that was found for a declaration. A kernel that was looked for must
/// have been found and be declared as the caller declares it: the caller has to be built
/// anew otherwise.
pub fn validate_kernel(
    kernel: Option<Option<KernelDesc>>,
    safety: Safety,
    spec_descs: &[SpecDesc],
    slice_descs: &[SliceDesc],
    push_descs: &[PushDesc],
) -> (r: Option<KernelDesc>)
    requires
        kernel matches Some(found) ==> (found matches Some(k) && k.declared_as(
            safety,
            spec_descs@,
            slice_descs@,
            push_descs@,
        )),
    ensures
        r == match kernel {
            Some(found) => found,
            None => None,
        },
{
    match kernel {
        Some(found) => found,
        None => None,
    }
}

/// Whether a kernel that was looked for was found and is declared as the caller declares it.
pub fn is_valid_kernel(
    kernel: &Option<Option<KernelDesc>>,
    safety: Safety,
    spec_descs: &[SpecDesc],
    slice_descs: &[SliceDesc],
    push_descs: &[PushDesc],
) -> (r: bool)
    ensures
        r == (*kernel matches Some(found) ==> (found matches Some(k) && k.declared_as(
            safety,
            spec_descs@,
            slice_descs@,
            push_descs@,
        ))),
{
    match kernel {
        Some(Some(k)) => k.check_declaration(safety, spec_descs, slice_descs, push_descs),
        Some(None) => false,
        None => true,
    }
}

impl KernelDesc {
    /// Whether the kernel is declared with this safety and these constants, slices and push
    /// constants.
    pub open spec fn declared_as(
        self,
        safety: Safety,
        spec_descs: Seq<SpecDesc>,
        slice_descs: Seq<SliceDesc>,
        push_descs: Seq<PushDesc>,
    ) -> bool {
        &&& self.safe == (safety == Safety::Safe)
        &&& spec_descs_match(self.spec_descs@, spec_descs)
        &&& slice_descs_match(self.slice_descs@, slice_descs)
        &&& push_descs_match(self.push_descs@, push_descs)
    }

    /// The descriptor made of its parts.
    pub fn from_args(args: KernelDescArgs) -> (r: KernelDesc)
        ensures
            r.name == args.name,
            r.spirv == args.spirv,
            r.features == args.features,
            r.safe == args.safe,
            r.spec_descs == args.spec_descs,
            r.slice_descs == args.slice_descs,
            r.push_descs == args.push_descs,
    {
        KernelDesc {
            name: args.name,
            spirv: args.spirv,
            features: args.features,
            safe: args.safe,
            spec_descs: args.spec_descs,
            slice_descs: args.slice_descs,
            push_descs: args.push_descs,
        }
    }

    /// Whether the kernel is declared with this safety and these constants, slices and push
    /// constants.
    pub fn check_declaration(
        &self,
        safety: Safety,
        spec_descs: &[SpecDesc],
        slice_descs: &[SliceDesc],
        push_descs: &[PushDesc],
    ) -> (r: bool)
        ensures
            r == self.declared_as(safety, spec_descs@, slice_descs@, push_descs@),
    {
        if self.safe != safety.is_safe() {
            return false;
        }
        if self.spec_descs.len() != spec_descs.len() {
            return false;
        }
        let mut index: usize = 0;
        while index < spec_descs.len()
            invariant
                index <= spec_descs.len(),
                self.spec_descs@.len() == spec_descs@.len(),
                forall|i: int| 0 <= i < index ==> (#[trigger] self.spec_descs@[i]).matches(spec_descs@[i]),
            decreases spec_descs.len() - index,
        {
            if !self.spec_descs[index].const_eq(&spec_descs[index]) {
                assert(!self.spec_descs@[index as int].matches(spec_descs@[index as int]));
                return false;
            }
            index = index + 1;
        }
        if self.slice_descs.len() != slice_descs.len() {
            return false;
        }
        let mut index: usize = 0;
        while index < slice_descs.len()
            invariant
                index <= slice_descs.len(),
                self.slice_descs@.len() == slice_descs@.len(),
                forall|i: int|
                    0 <= i < index ==> (#[trigger] self.slice_descs@[i]).matches(slice_descs@[i]),
            decreases slice_descs.len() - index,
        {
            if !self.slice_descs[index].const_eq(&slice_descs[index]) {
                assert(!self.slice_descs@[index as int].matches(slice_descs@[index as int]));
                return false;
            }
            index = index + 1;
        }
        if self.push_descs.len() != push_descs.len() {
            return false;
        }
        let mut index: usize = 0;
        while index < push_descs.len()
            invariant
                index <= push_descs.len(),
                self.push_descs@.len() == push_descs@.len(),
                forall|i: int| 0 <= i < index ==> (#[trigger] self.push_descs@[i]).matches(push_descs@[i]),
            decreases push_descs.len() - index,
        {
            if !self.push_descs[index].const_eq(&push_descs[index]) {
                assert(!self.push_descs@[index as int].matches(push_descs@[index as int]));
                return false;
            }
            index = index + 1;
        }
        true
    }
}

/// What `flate2` makes of the gzip stream `input`: the bytes that it holds, or the text of
/// the error that reading it ends in.
pub uninterp spec fn gz_decoded(input: Seq<u8>) -> Result<Seq<u8>, Seq<char>>;

/// What a `gunzip` gave, as values.
pub open spec fn gunzip_view(r: Result<Vec<u8>, String>) -> Result<Seq<u8>, Seq<char>> {
    match r {
        Ok(bytes) => Ok(bytes@),
        Err(text) => Err(text@),
    }
}

/// Reads the gzip stream `input` to its end with `flate2::read::GzDecoder`, and gives the
/// bytes read, or the text of the error. The contract names the result: it is a function of
/// the input alone.
#[verifier::external_body]
fn gunzip(input: &[u8]) -> (r: Result<Vec<u8>, String>)
    ensures
        gunzip_view(r) == gz_decoded(input@),
{
    let mut output = Vec::new();
    match flate2::read::GzDecoder::new(input).read_to_end(&mut output) {
        Ok(_) => Ok(output),
        Err(e) => Err(e.to_string()),
    }
}

/// The word that four bytes spell, least significant first.
pub open spec fn le_word(b0: u8, b1: u8, b2: u8, b3: u8) -> u32 {
    (b0 as int + 0x100 * b1 as int + 0x1_0000 * b2 as int + 0x100_0000 * b3 as int) as u32
}

/// The words that `bytes` spell, four bytes to a word; bytes left over do not count.
pub open spec fn le_words(bytes: Seq<u8>) -> Seq<u32> {
    Seq::new(
        (bytes.len() / 4) as nat,
        |i: int| le_word(bytes[4 * i], bytes[4 * i + 1], bytes[4 * i + 2], bytes[4 * i + 3]),
    )
}

/// The words that `bytes` spell.
pub fn words_of_bytes(bytes: &Vec<u8>) -> (r: Vec<u32>)
    ensures
        r@ == le_words(bytes@),
{
    let n: usize = bytes.len() / 4;
    let mut out: Vec<u32> = Vec::new();
    let mut i: usize = 0;
    while i < n
        invariant
            i <= n,
            n == bytes.len() / 4,
            out@.len() == i,
            forall|j: int| 0 <= j < i ==> out@[j] == le_words(bytes@)[j],
        decreases n - i,
    {
        let w: u32 = bytes[4 * i] as u32 + 0x100 * (bytes[4 * i + 1] as u32) + 0x1_0000 * (bytes[4
            * i + 2] as u32) + 0x100_0000 * (bytes[4 * i + 3] as u32);
        out.push(w);
        i = i + 1;
    }
    proof {
        assert(out@ =~= le_words(bytes@));
    }
    out
}

/// A kernel's module could not be read.
#[derive(Debug)]
pub struct DecodeError {
    /// The kernel's name.
    pub name: String,
    /// What the decoder said.
    pub reason: String,
}

/// What `decode_spirv` gives for what the decoder made of the input.
pub open spec fn spec_decode_spirv(name: Seq<char>, decoded: Result<Seq<u8>, Seq<char>>) -> Result<
    Seq<u32>,
    (Seq<char>, Seq<char>),
> {
    match decoded {
        Ok(bytes) => Ok(le_words(bytes)),
        Err(text) => Err((name, text)),
    }
}

/// What a `decode_spirv` gave, as values.
pub open spec fn decode_view(r: Result<Vec<u32>, DecodeError>) -> Result<
    Seq<u32>,
    (Seq<char>, Seq<char>),
> {
    match r {
        Ok(words) => Ok(words@),
        Err(e) => Err((e.name@, e.reason@)),
    }
}

/// The words of the module of the kernel `name` from their gzip form `input`.
pub fn decode_spirv(name: &str, input: &[u8]) -> (r: Result<Vec<u32>, DecodeError>)
    ensures
        decode_view(r) == spec_decode_spirv(name@, gz_decoded(input@)),
{
    match gunzip(input) {
        Ok(bytes) => Ok(words_of_bytes(&bytes)),
        Err(reason) => Err(DecodeError { name: name.to_owned(), reason }),
    }
}

/// Where a kernel is to run.
#[derive(Clone, Copy, Debug, PartialEq, Eq, Structural)]
pub enum Device {
    /// The host, which runs no kernel.
    Host,
    /// A device, with its limits.
    Device(DeviceInfo),
}

/// What a kernel is built from: its descriptor, and the threads and the values of the
/// specialization constants chosen for it.
#[derive(Debug)]
pub struct KernelBuilder {
    /// Which declaration the kernel is of; the same in every builder of one declaration.
    pub id: usize,
    pub desc: crate::desc::KernelDesc,
    pub spec_consts: Vec<ScalarElem>,
    pub threads: Option<u32>,
}

/// What the engine needs to build a kernel, or to find it built.
#[derive(Debug)]
pub struct Build {
    pub key: KernelKey,
    pub threads: u32,
    pub debug_printf: bool,
    pub device: DeviceId,
}

/// What a `Build` holds.
pub struct BuildView {
    pub key: (usize, Seq<u8>),
    pub threads: u32,
    pub debug_printf: bool,
    pub device: DeviceId,
}

impl View for Build {
    type V = BuildView;

    open spec fn view(&self) -> BuildView {
        BuildView {
            key: self.key@,
            threads: self.threads,
            debug_printf: self.debug_printf,
            device: self.device,
        }
    }
}

/// What a `build` gave, as values.
pub open spec fn build_view(r: Result<Build, Error>) -> Result<BuildView, Error> {
    match r {
        Ok(b) => Ok(b@),
        Err(e) => Err(e),
    }
}

impl KernelBuilder {
    /// The threads that the kernel gets on a device: those chosen, else the device's default.
    pub open spec fn spec_threads(&self, info: DeviceInfo) -> u32 {
        match self.threads {
            Some(t) => t,
            None => info.default_threads,
        }
    }

    /// What building the kernel for `device` gives.
    ///
    /// The host builds no kernel. The device must have the features that the kernel
    /// requires. The threads must be some and no more than the device runs in a group. The
    /// values of the specialization constants must be those that the kernel declares, and its
    /// push-constant block of a size that can be stated.
    pub open spec fn spec_build(&self, device: Device) -> Result<BuildView, Error> {
        match device {
            Device::Host => Err(Error::InvalidArgument { reason: ArgumentError::HostDevice }),
            Device::Device(info) => {
                let threads = self.spec_threads(info);
                if !info.features.spec_contains(self.desc.features) {
                    Err(
                        Error::FeatureUnsupported {
                            required: self.desc.features,
                            available: info.features,
                        },
                    )
                } else if threads == 0 || threads > info.max_threads {
                    Err(
                        Error::InvalidArgument {
                            reason: ArgumentError::Threads { threads, max_threads: info.max_threads },
                        },
                    )
                } else if value_types(self.spec_consts@) != spec_types(self.desc.spec_descs@) {
                    Err(Error::InvalidArgument { reason: ArgumentError::SpecConstants })
                } else if !self.desc.wf() {
                    Err(Error::InvalidArgument { reason: ArgumentError::PushCount })
                } else {
                    Ok(
                        BuildView {
                            key: (self.id, key_bytes(self.spec_consts@, threads)),
                            threads,
                            debug_printf: info.debug_printf,
                            device: info.id,
                        },
                    )
                }
            },
        }
    }

    /// The builder for the declaration `desc`, which is the declaration `id`: the module is
    /// read, and nothing is chosen yet.
    pub fn from_desc(id: usize, desc: KernelDesc) -> (r: Result<KernelBuilder, DecodeError>)
        ensures
            match r {
                Ok(b) => {
                    &&& spec_decode_spirv(desc.name@, gz_decoded(desc.spirv@)) == Ok::<
                        Seq<u32>,
                        (Seq<char>, Seq<char>),
                    >(b.desc.spirv@)
                    &&& b.id == id
                    &&& b.desc.name == desc.name
                    &&& b.desc.features == desc.features
                    &&& b.desc.threads == 0
                    &&& b.desc.spec_descs@ == desc.spec_descs@
                    &&& b.desc.slice_descs@ == desc.slice_descs@
                    &&& b.desc.push_descs@ == desc.push_descs@
                    &&& b.spec_consts@.len() == 0
                    &&& b.threads is None
                },
                Err(e) => spec_decode_spirv(desc.name@, gz_decoded(desc.spirv@)) == Err::<
                    Seq<u32>,
                    (Seq<char>, Seq<char>),
                >((e.name@, e.reason@)),
            },
    {
        let spirv = match decode_spirv(desc.name, desc.spirv) {
            Ok(w) => w,
            Err(e) => { return Err(e); },
        };
        let runtime = crate::desc::KernelDesc {
            name: desc.name,
            spirv,
            features: desc.features,
            threads: 0,
            spec_descs: copy_vec(desc.spec_descs),
            slice_descs: copy_vec(desc.slice_descs),
            push_descs: copy_vec(desc.push_descs),
        };
        Ok(KernelBuilder { id, desc: runtime, spec_consts: Vec::new(), threads: None })
    }

    /// The builder with `threads` threads in a group.
    pub fn with_threads(self, threads: u32) -> (r: KernelBuilder)
        ensures
            r.threads == Some(threads),
            r.id == self.id,
            r.desc == self.desc,
            r.spec_consts == self.spec_consts,
    {
        KernelBuilder { id: self.id, desc: self.desc, spec_consts: self.spec_consts, threads: Some(threads) }
    }

    /// The builder with the values `spec_consts` for the specialization constants.
    pub fn specialize(self, spec_consts: &[ScalarElem]) -> (r: KernelBuilder)
        ensures
            r.spec_consts@ == spec_consts@,
            r.id == self.id,
            r.desc == self.desc,
            r.threads == self.threads,
    {
        KernelBuilder {
            id: self.id,
            desc: self.desc,
            spec_consts: copy_vec(spec_consts),
            threads: self.threads,
        }
    }

    /// Checks that the kernel can be built for `device`, and gives what the engine needs to
    /// build it, or to find it built: the key, the threads, and whether debug printf is on.
    pub fn build(&self, device: &Device) -> (r: Result<Build, Error>)
        ensures
            build_view(r) == self.spec_build(*device),
    {
        match device {
            Device::Host => Err(Error::InvalidArgument { reason: ArgumentError::HostDevice }),
            Device::Device(info) => {
                let threads: u32 = match self.threads {
                    Some(t) => t,
                    None => info.default_threads,
                };
                if !info.features.contains(&self.desc.features) {
                    return Err(
                        Error::FeatureUnsupported {
                            required: self.desc.features,
                            available: info.features,
                        },
                    );
                }
                if threads == 0 || threads > info.max_threads {
                    return Err(
                        Error::InvalidArgument {
                            reason: ArgumentError::Threads { threads, max_threads: info.max_threads },
                        },
                    );
                }
                if !self.desc.takes(self.spec_consts.as_slice()) {
                    return Err(Error::InvalidArgument { reason: ArgumentError::SpecConstants });
                }
                if self.desc.checked_push_consts_range().is_none() {
                    return Err(Error::InvalidArgument { reason: ArgumentError::PushCount });
                }
                Ok(
                    Build {
                        key: KernelKey::new(self.id, self.spec_consts.as_slice(), threads),
                        threads,
                        debug_printf: info.debug_printf,
                        device: info.id,
                    },
                )
            },
        }
    }
}

/// A kernel that requires a feature that the device does not have is not built: the build
/// fails with the features required and those available.
pub proof fn lemma_build_needs_features(builder: KernelBuilder, info: DeviceInfo)
    requires
        !info.features.spec_contains(builder.desc.features),
    ensures
        builder.spec_build(Device::Device(info)) == Err::<BuildView, Error>(
            Error::FeatureUnsupported { required: builder.desc.features, available: info.features },
        ),
{
}

/// A kernel as the engine holds it: the specialized descriptor, the device it is built for,
/// and the handle of its pipeline.
#[derive(Debug)]
pub struct RawKernel {
    pub desc: crate::desc::KernelDesc,
    pub device: DeviceInfo,
    pub pipeline: u64,
}

/// A slice that a kernel is dispatched on: its scalar type, its length in elements, and its
/// buffer, if it is on a device.
#[derive(Clone, Copy, Debug, PartialEq, Eq, Structural)]
pub struct ScalarSlice {
    pub scalar_type: ScalarType,
    pub len: usize,
    pub buffer: Option<DeviceBuffer>,
}

/// A slice argument of a dispatch, read-only or mutable.
#[derive(Clone, Copy, Debug, PartialEq, Eq, Structural)]
pub enum KernelSliceArg {
    Slice(ScalarSlice),
    SliceMut(ScalarSlice),
}

impl KernelSliceArg {
    /// The slice of the argument.
    pub open spec fn slice(self) -> ScalarSlice {
        match self {
            KernelSliceArg::Slice(x) => x,
            KernelSliceArg::SliceMut(x) => x,
        }
    }

    /// The scalar type of the slice's elements.
    pub fn scalar_type(&self) -> (r: ScalarType)
        ensures
            r == self.slice().scalar_type,
    {
        match self {
            KernelSliceArg::Slice(x) => x.scalar_type,
            KernelSliceArg::SliceMut(x) => x.scalar_type,
        }
    }

    /// Whether the slice may be written.
    pub fn mutable(&self) -> (r: bool)
        ensures
            r == (*self is SliceMut),
    {
        match self {
            KernelSliceArg::Slice(_) => false,
            KernelSliceArg::SliceMut(_) => true,
        }
    }

    /// The slice's buffer, if it is on a device.
    pub fn device_buffer(&self) -> (r: Option<DeviceBuffer>)
        ensures
            r == self.slice().buffer,
    {
        match self {
            KernelSliceArg::Slice(x) => x.buffer,
            KernelSliceArg::SliceMut(x) => x.buffer,
        }
    }

    /// Number of elements in the slice.
    pub fn len(&self) -> (r: usize)
        ensures
            r == self.slice().len,
    {
        match self {
            KernelSliceArg::Slice(x) => x.len,
            KernelSliceArg::SliceMut(x) => x.len,
        }
    }
}

/// `n` over `d`, rounded up.
pub open spec fn div_ceil(n: int, d: int) -> int {
    n / d + if n % d != 0 { 1int } else { 0int }
}

/// A kernel that is built: it can be given its groups and be dispatched.
#[derive(Debug)]
pub struct Kernel {
    pub inner: Arc<RawKernel>,
    pub threads: u32,
    pub groups: Option<u32>,
}

impl Kernel {
    /// The kernel's invariant: it has threads, those that it was specialized for, and a
    /// push-constant block of a size that can be stated.
    pub open spec fn wf(&self) -> bool {
        &&& self.threads > 0
        &&& self.threads == self.inner.desc.threads
        &&& self.inner.desc.wf()
    }

    /// The kernel of what the engine holds, without groups; `None` where that is no
    /// specialized kernel.
    pub fn new(inner: Arc<RawKernel>) -> (r: Option<Kernel>)
        ensures
            r is Some <==> inner.desc.threads > 0 && inner.desc.wf(),
            r matches Some(k) ==> (k.wf() && k.inner == inner && k.groups is None),
    {
        if inner.desc.threads > 0 && inner.desc.checked_push_consts_range().is_some() {
            let threads = inner.desc.threads;
            Some(Kernel { inner, threads, groups: None })
        } else {
            None
        }
    }

    /// Threads in a group.
    pub fn threads(&self) -> (r: u32)
        ensures
            r == self.threads,
    {
        self.threads
    }

    /// The kernel with as many groups as `global_threads` threads take, rounded up.
    pub fn with_global_threads(self, global_threads: u32) -> (r: Kernel)
        requires
            self.wf(),
        ensures
            r.wf(),
            r.inner == self.inner,
            r.threads == self.threads,
            r.groups == Some(div_ceil(global_threads as int, self.threads as int) as u32),
            div_ceil(global_threads as int, self.threads as int) <= u32::MAX,
    {
        let threads: u32 = self.inner.desc.threads;
        let whole: u32 = global_threads / threads;
        let groups: u32 = if global_threads % threads != 0 {
            proof {
                assert(whole < global_threads) by (nonlinear_arith)
                    requires
                        whole == global_threads / threads,
                        global_threads % threads != 0,
                        threads > 0,
                ;
            }
            whole + 1
        } else {
            whole
        };
        self.with_groups(groups)
    }

    /// The kernel with `groups` groups.
    pub fn with_groups(self, groups: u32) -> (r: Kernel)
        ensures
            r.inner == self.inner,
            r.threads == self.threads,
            r.groups == Some(groups),
            self.wf() ==> r.wf(),
    {
        Kernel { inner: self.inner, threads: self.threads, groups: Some(groups) }
    }

    /// The features that the kernel requires.
    pub fn features(&self) -> (r: Features)
        ensures
            r == self.inner.desc.features,
    {
        self.inner.desc.features
    }
}

} // verus!
