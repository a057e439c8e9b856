use std::io::Write;
use std::sync::Arc;

use krnl::buffer::DeviceBuffer;
use krnl::cache::Cached;
use krnl::cache::KernelCache;
use krnl::desc::bytes_eq;
use krnl::desc::scalar_type_const_eq;
use krnl::desc::Binding;
use krnl::desc::KernelKey;
use krnl::desc::PushDesc;
use krnl::desc::SliceDesc;
use krnl::desc::SpecDesc;
use krnl::dispatch::check_slice;
use krnl::dispatch::choose_groups;
use krnl::dispatch::dispatch_result;
use krnl::dispatch::lock_order;
use krnl::dispatch::merge_locks;
use krnl::dispatch::update_futures;
use krnl::dispatch::updated_future;
use krnl::dispatch::FutureLock;
use krnl::engine::DeviceId;
use krnl::engine::DeviceInfo;
use krnl::error::ArgumentError;
use krnl::error::Error;
use krnl::error::SpecError;
use krnl::features::Features;
use krnl::kernel::decode_spirv;
use krnl::kernel::find_kernel;
use krnl::kernel::is_valid_kernel;
use krnl::kernel::validate_kernel;
use krnl::kernel::words_of_bytes;
use krnl::kernel::Device;
use krnl::kernel::Kernel;
use krnl::kernel::KernelBuilder;
use krnl::kernel::KernelDesc;
use krnl::kernel::KernelDescArgs;
use krnl::kernel::KernelSliceArg;
use krnl::kernel::RawKernel;
use krnl::kernel::Safety;
use krnl::kernel::ScalarSlice;
use krnl::scalar::ScalarElem;
use krnl::scalar::ScalarType;
use krnl::slab::Block;
use krnl::slab::ChunkAlloc;
use krnl::worker::WorkerState;

fn inst(opcode: u32, words: &[u32]) -> Vec<u32> {
    let mut out = vec![((words.len() as u32 + 1) << 16) | opcode];
    out.extend_from_slice(words);
    out
}

fn module(op: u32) -> Vec<u32> {
    let mut m = vec![0x0723_0203, 0x0001_0500, 0x000f_0000, 64, 0];
    m.extend(inst(17, &[1]));
    m.extend(inst(14, &[0, 1]));
    m.extend(inst(71, &[10, 1, 0]));
    m.extend(inst(71, &[11, 1, 1]));
    m.extend(inst(21, &[2, 32, 0]));
    m.extend(inst(50, &[2, 10, 32]));
    m.extend(inst(50, &[2, 11, 1]));
    m.extend(inst(52, &[2, 12, op, 10, 11]));
    m
}

fn specialized(n: u32, threads: u32) -> Vec<u32> {
    let mut m = vec![0x0723_0203, 0x0001_0500, 0x000f_0000, 64, 0];
    m.extend(inst(17, &[1]));
    m.extend(inst(14, &[0, 1]));
    m.extend(inst(21, &[2, 32, 0]));
    m.extend(inst(43, &[2, 10, n]));
    m.extend(inst(43, &[2, 11, threads]));
    m.extend(inst(43, &[2, 12, n * threads]));
    m
}

fn gz(words: &[u32]) -> &'static [u8] {
    let mut encoder = flate2::write::GzEncoder::new(Vec::new(), flate2::Compression::default());
    for w in words {
        encoder.write_all(&w.to_le_bytes()).unwrap();
    }
    encoder.finish().unwrap().leak()
}

const SPECS: &[SpecDesc] = &[SpecDesc { name: "N", scalar_type: ScalarType::U32 }];
const SLICES: &[SliceDesc] = &[
    SliceDesc { name: "x", scalar_type: ScalarType::F32, mutable: false, item: true },
    SliceDesc { name: "y", scalar_type: ScalarType::F32, mutable: true, item: true },
];
const PUSHES: &[PushDesc] = &[PushDesc { name: "alpha", scalar_type: ScalarType::F32 }];

fn features(float64: bool) -> Features {
    Features {
        shader_int8: false,
        shader_int16: false,
        shader_int64: false,
        shader_float16: false,
        shader_float64: float64,
    }
}

fn saxpy(op: u32, float64: bool) -> KernelDesc {
    KernelDesc::from_args(KernelDescArgs {
        name: "saxpy",
        spirv: gz(&module(op)),
        features: features(float64),
        safe: true,
        spec_descs: SPECS,
        slice_descs: SLICES,
        push_descs: PUSHES,
    })
}

fn id() -> DeviceId {
    DeviceId { index: 0, handle: 0x10 }
}

fn info(debug_printf: bool) -> DeviceInfo {
    DeviceInfo {
        id: id(),
        compute_queues: 1,
        transfer_queues: 0,
        features: features(false),
        max_groups: 1000,
        max_threads: 1024,
        default_threads: 64,
        debug_printf,
    }
}

fn buffer(len: u64, cell: usize) -> DeviceBuffer {
    let alloc = ChunkAlloc { slot: 0, block: Block { start: 0, end: 4096 } };
    DeviceBuffer::in_block(id(), alloc, len, cell, false).unwrap()
}

fn slice(len: usize, cell: usize) -> ScalarSlice {
    ScalarSlice { scalar_type: ScalarType::F32, len, buffer: Some(buffer(4 * len as u64, cell)) }
}

fn built(threads: u32, n: u32, debug_printf: bool, cache: &mut KernelCache) -> Kernel {
    let builder = KernelBuilder::from_desc(1, saxpy(132, false))
        .unwrap()
        .with_threads(threads)
        .specialize(&[ScalarElem::U32(n)]);
    let build = builder.build(&Device::Device(info(debug_printf))).unwrap();
    let raw = match cache
        .cached(&build.key, &builder.desc, build.threads, &builder.spec_consts, build.debug_printf)
        .unwrap()
    {
        Cached::Hit(raw) => raw,
        Cached::Miss(desc) => {
            cache.insert(build.key, RawKernel { desc, device: info(debug_printf), pipeline: 1 })
        }
    };
    Kernel::new(raw).unwrap()
}

#[test]
fn bytes_eq_compares_bytes() {
    assert!(bytes_eq(b"", b""));
    assert!(bytes_eq(b"abc", b"abc"));
    assert!(!bytes_eq(b"abc", b"abd"));
    assert!(!bytes_eq(b"abc", b"ab"));
    assert!(scalar_type_const_eq(ScalarType::F16, ScalarType::F16));
    assert!(!scalar_type_const_eq(ScalarType::F16, ScalarType::BF16));
}

#[test]
fn safety_is_safe() {
    assert!(Safety::Safe.is_safe());
    assert!(!Safety::Unsafe.is_safe());
}

#[test]
fn descs_compare_by_name_and_type() {
    assert!(SPECS[0].const_eq(&SpecDesc { name: "N", scalar_type: ScalarType::U32 }));
    assert!(!SPECS[0].const_eq(&SpecDesc { name: "M", scalar_type: ScalarType::U32 }));
    assert!(!SPECS[0].const_eq(&SpecDesc { name: "N", scalar_type: ScalarType::I32 }));
    assert!(SLICES[0].const_eq(&SLICES[0]));
    assert!(!SLICES[0].const_eq(&SLICES[1]));
    assert!(!SLICES[0].const_eq(&SliceDesc { item: false, ..SLICES[0] }));
    assert!(PUSHES[0].const_eq(&PUSHES[0]));
    assert!(!PUSHES[0].const_eq(&PushDesc { name: "beta", scalar_type: ScalarType::F32 }));
}

#[test]
fn find_kernel_takes_the_first_of_that_name() {
    let a = saxpy(132, false);
    let b = KernelDesc { name: "other", safe: false, ..a };
    let c = KernelDesc { name: "other", safe: true, ..a };
    let kernels = [a, b, c];
    assert_eq!(find_kernel("saxpy", &kernels).unwrap().name, "saxpy");
    let found = find_kernel("other", &kernels).unwrap();
    assert!(!found.safe);
    assert!(find_kernel("none", &kernels).is_none());
    assert!(find_kernel("saxpy", &[]).is_none());
}

#[test]
fn check_declaration_compares_every_desc() {
    let k = saxpy(132, false);
    assert!(k.check_declaration(Safety::Safe, SPECS, SLICES, PUSHES));
    assert!(!k.check_declaration(Safety::Unsafe, SPECS, SLICES, PUSHES));
    assert!(!k.check_declaration(Safety::Safe, &[], SLICES, PUSHES));
    assert!(!k.check_declaration(Safety::Safe, SPECS, &SLICES[..1], PUSHES));
    let renamed = [SLICES[0], SliceDesc { name: "z", ..SLICES[1] }];
    assert!(!k.check_declaration(Safety::Safe, SPECS, &renamed, PUSHES));
    let retyped = [PushDesc { name: "alpha", scalar_type: ScalarType::F64 }];
    assert!(!k.check_declaration(Safety::Safe, SPECS, SLICES, &retyped));
}

#[test]
fn validate_kernel_hands_on_what_was_found() {
    let k = saxpy(132, false);
    assert!(is_valid_kernel(&Some(Some(k)), Safety::Safe, SPECS, SLICES, PUSHES));
    assert!(!is_valid_kernel(&Some(None), Safety::Safe, SPECS, SLICES, PUSHES));
    assert!(!is_valid_kernel(&Some(Some(k)), Safety::Unsafe, SPECS, SLICES, PUSHES));
    assert!(is_valid_kernel(&None, Safety::Safe, SPECS, SLICES, PUSHES));
    let v = validate_kernel(Some(Some(k)), Safety::Safe, SPECS, SLICES, PUSHES);
    assert_eq!(v.unwrap().name, "saxpy");
    assert!(validate_kernel(None, Safety::Safe, SPECS, SLICES, PUSHES).is_none());
}

#[test]
fn decode_spirv_reads_the_gzip_stream() {
    let words = module(132);
    assert_eq!(decode_spirv("saxpy", gz(&words)).unwrap(), words);
    assert_eq!(decode_spirv("empty", gz(&[])).unwrap(), Vec::<u32>::new());
    let e = decode_spirv("saxpy", &[1, 2, 3, 4, 5]).unwrap_err();
    assert_eq!(e.name, "saxpy");
    assert!(!e.reason.is_empty());
    assert_eq!(words_of_bytes(&vec![1, 2, 3, 4, 0xff, 0, 0, 0x80, 9]), vec![0x0403_0201, 0x8000_00ff]);
}

#[test]
fn builder_from_desc_decodes_and_chooses_nothing() {
    let b = KernelBuilder::from_desc(42, saxpy(132, false)).unwrap();
    assert_eq!(b.id, 42);
    assert_eq!(b.desc.spirv, module(132));
    assert_eq!(b.desc.threads, 0);
    assert_eq!(b.threads, None);
    assert!(b.spec_consts.is_empty());
    assert_eq!(b.desc.slice_descs.len(), 2);
    let b = b.with_threads(128).specialize(&[ScalarElem::U32(5)]);
    assert_eq!(b.threads, Some(128));
    assert_eq!(b.spec_consts, vec![ScalarElem::U32(5)]);
    let bad = KernelDesc { spirv: &[0, 1, 2], ..saxpy(132, false) };
    assert!(KernelBuilder::from_desc(1, bad).is_err());
}

#[test]
fn build_checks_device_features_threads_and_constants() {
    let b = KernelBuilder::from_desc(1, saxpy(132, false)).unwrap().specialize(&[ScalarElem::U32(5)]);
    let build = b.build(&Device::Device(info(true))).unwrap();
    assert_eq!(build.threads, 64);
    assert!(build.debug_printf);
    assert_eq!(build.device, id());
    assert_eq!(build.key, KernelKey { id: 1, spec_bytes: vec![5, 0, 0, 0, 64, 0, 0, 0] });
    assert_eq!(
        b.build(&Device::Host).unwrap_err(),
        Error::InvalidArgument { reason: ArgumentError::HostDevice }
    );
    let b = b.with_threads(2048);
    assert_eq!(
        b.build(&Device::Device(info(false))).unwrap_err(),
        Error::InvalidArgument {
            reason: ArgumentError::Threads { threads: 2048, max_threads: 1024 }
        }
    );
    let b = b.with_threads(0);
    assert_eq!(
        b.build(&Device::Device(info(false))).unwrap_err(),
        Error::InvalidArgument { reason: ArgumentError::Threads { threads: 0, max_threads: 1024 } }
    );
    let b = b.with_threads(1).specialize(&[]);
    assert_eq!(
        b.build(&Device::Device(info(false))).unwrap_err(),
        Error::InvalidArgument { reason: ArgumentError::SpecConstants }
    );
    let b = b.specialize(&[ScalarElem::I32(5)]);
    assert_eq!(
        b.build(&Device::Device(info(false))).unwrap_err(),
        Error::InvalidArgument { reason: ArgumentError::SpecConstants }
    );
}

#[test]
fn build_needs_the_features_that_the_kernel_requires() {
    let b = KernelBuilder::from_desc(1, saxpy(132, true)).unwrap().specialize(&[ScalarElem::U32(5)]);
    assert_eq!(
        b.build(&Device::Device(info(false))).unwrap_err(),
        Error::FeatureUnsupported { required: features(true), available: features(false) }
    );
    let with = DeviceInfo { features: features(true), ..info(false) };
    assert!(b.build(&Device::Device(with)).is_ok());
}

#[test]
fn kernel_desc_specializes_its_module() {
    let b = KernelBuilder::from_desc(1, saxpy(132, false)).unwrap();
    let d = b.desc.specialize(16, &[ScalarElem::U32(3)], false).unwrap();
    assert_eq!(d.spirv, specialized(3, 16));
    assert_eq!(d.threads, 16);
    assert!(d.spec_descs.is_empty());
    assert_eq!(d.name, "saxpy");
    assert_eq!(d.push_consts_range(), 20);
    assert_eq!(d.checked_push_consts_range(), Some(20));
    let layout = d.pipeline_layout();
    assert_eq!(
        layout.bindings,
        vec![Binding { binding: 0, writable: false }, Binding { binding: 1, writable: true }]
    );
    assert_eq!(layout.push_constant_range, Some(20));
    let bad = KernelBuilder::from_desc(1, saxpy(197, false)).unwrap();
    assert_eq!(
        bad.desc.specialize(16, &[ScalarElem::U32(3)], false).unwrap_err(),
        Error::Spec { reason: SpecError::Unsupported(197) }
    );
}

#[test]
fn push_constants_are_aligned_to_their_sizes() {
    let b = KernelBuilder::from_desc(1, saxpy(132, false)).unwrap();
    let mut d = b.desc;
    d.push_descs = vec![
        PushDesc { name: "a", scalar_type: ScalarType::U8 },
        PushDesc { name: "b", scalar_type: ScalarType::U64 },
        PushDesc { name: "c", scalar_type: ScalarType::U16 },
    ];
    d.slice_descs = vec![];
    assert_eq!(d.checked_push_consts_range(), Some(20));
    d.push_descs = vec![];
    assert_eq!(d.checked_push_consts_range(), Some(0));
    assert_eq!(d.pipeline_layout().push_constant_range, None);
}

#[test]
fn cache_builds_each_key_once_and_keeps_no_failure() {
    let mut cache = KernelCache::new();
    let a = built(64, 32, false, &mut cache);
    let b = built(64, 128, false, &mut cache);
    let again = built(64, 32, false, &mut cache);
    assert!(Arc::ptr_eq(&a.inner, &again.inner));
    assert!(!Arc::ptr_eq(&a.inner, &b.inner));
    assert_eq!(a.inner.desc.spirv, specialized(32, 64));
    assert_eq!(b.inner.desc.spirv, specialized(128, 64));
    let key32 = KernelKey::new(1, &[ScalarElem::U32(32)], 64);
    let key128 = KernelKey::new(1, &[ScalarElem::U32(128)], 64);
    assert_ne!(key32, key128);
    assert_eq!(key32.duplicate(), key32);
    assert!(cache.get(&key32).is_some());
    assert!(cache.get(&key128).is_some());
    assert!(cache.get(&KernelKey::new(1, &[ScalarElem::U32(32)], 32)).is_none());
    assert!(cache.get(&KernelKey::new(2, &[ScalarElem::U32(32)], 64)).is_none());

    let failing = KernelBuilder::from_desc(3, saxpy(197, false)).unwrap();
    let key = KernelKey::new(3, &[ScalarElem::U32(1)], 64);
    let r = cache.cached(&key, &failing.desc, 64, &[ScalarElem::U32(1)], false);
    assert_eq!(r.unwrap_err(), Error::Spec { reason: SpecError::Unsupported(197) });
    assert!(cache.get(&key).is_none());
    assert!(cache.get(&key32).is_some());
}

#[test]
fn cache_insert_keeps_the_first_kernel_of_a_key() {
    let mut cache = KernelCache::new();
    let builder = KernelBuilder::from_desc(1, saxpy(132, false)).unwrap();
    let d1 = builder.desc.specialize(8, &[ScalarElem::U32(1)], false).unwrap();
    let d2 = builder.desc.specialize(8, &[ScalarElem::U32(1)], false).unwrap();
    let key = KernelKey::new(1, &[ScalarElem::U32(1)], 8);
    let first = cache.insert(key.duplicate(), RawKernel { desc: d1, device: info(false), pipeline: 11 });
    let second = cache.insert(key.duplicate(), RawKernel { desc: d2, device: info(false), pipeline: 22 });
    assert_eq!(first.pipeline, 11);
    assert_eq!(second.pipeline, 11);
    assert_eq!(cache.get(&key).unwrap().pipeline, 11);
}

#[test]
fn kernel_groups_from_global_threads() {
    let mut cache = KernelCache::new();
    let k = built(64, 1, false, &mut cache);
    assert_eq!(k.threads(), 64);
    assert_eq!(k.groups, None);
    assert_eq!(k.features(), features(false));
    let k = k.with_global_threads(4);
    assert_eq!(k.groups, Some(1));
    let k = k.with_global_threads(128);
    assert_eq!(k.groups, Some(2));
    let k = k.with_global_threads(129);
    assert_eq!(k.groups, Some(3));
    let k = k.with_global_threads(0);
    assert_eq!(k.groups, Some(0));
    let k = k.with_groups(7);
    assert_eq!(k.groups, Some(7));
}

#[test]
fn kernel_needs_a_specialized_descriptor() {
    let builder = KernelBuilder::from_desc(1, saxpy(132, false)).unwrap();
    let raw = Arc::new(RawKernel { desc: builder.desc, device: info(false), pipeline: 0 });
    assert!(Kernel::new(raw).is_none());
}

#[test]
fn slice_argument_accessors() {
    let s = slice(4, 0);
    let a = KernelSliceArg::Slice(s);
    let m = KernelSliceArg::SliceMut(s);
    assert!(!a.mutable());
    assert!(m.mutable());
    assert_eq!(a.len(), 4);
    assert_eq!(m.len(), 4);
    assert_eq!(a.scalar_type(), ScalarType::F32);
    assert_eq!(a.device_buffer(), s.buffer);
}

#[test]
fn saxpy_dispatch_has_one_group_and_twenty_push_bytes() {
    let mut cache = KernelCache::new();
    let k = built(64, 1, false, &mut cache);
    let x = KernelSliceArg::Slice(slice(4, 0));
    let y = KernelSliceArg::SliceMut(slice(4, 1));
    let alpha = ScalarElem::F32(2.0f32.to_bits());
    let d = k.dispatch(&[x, y], &[alpha]).unwrap();
    assert_eq!(d.groups, 1);
    assert!(!d.debug_printf);
    assert_eq!(d.buffers, vec![buffer(16, 0), buffer(16, 1)]);
    let mut expected = 2.0f32.to_le_bytes().to_vec();
    expected.extend([0, 0, 0, 0, 4, 0, 0, 0]);
    expected.extend([0, 0, 0, 0, 4, 0, 0, 0]);
    assert_eq!(d.push_bytes, expected);
    assert_eq!(d.push_bytes.len() as u32, k.inner.desc.push_consts_range());
}

#[test]
fn dispatch_lays_out_offsets_in_elements() {
    let mut cache = KernelCache::new();
    let k = built(64, 1, false, &mut cache);
    let whole = buffer(4096, 0);
    let part = whole.slice(256, 1280).unwrap();
    let x = KernelSliceArg::Slice(ScalarSlice {
        scalar_type: ScalarType::F32,
        len: 256,
        buffer: Some(part),
    });
    let y = KernelSliceArg::SliceMut(slice(1000, 1));
    let d = k.dispatch(&[x, y], &[ScalarElem::F32(0)]).unwrap();
    assert_eq!(&d.push_bytes[4..12], &[64, 0, 0, 0, 0, 1, 0, 0]);
    assert_eq!(d.groups, 4);
}

#[test]
fn item_groups_are_items_over_threads_rounded_up() {
    assert_eq!(choose_groups(None, Some(4), 64, 1000), Ok(1));
    assert_eq!(choose_groups(None, Some(64), 64, 1000), Ok(1));
    assert_eq!(choose_groups(None, Some(65), 64, 1000), Ok(2));
    assert_eq!(choose_groups(None, Some(1000), 1, 1000), Ok(1000));
    assert_eq!(choose_groups(None, Some(0), 64, 1000), Ok(0));
    assert_eq!(choose_groups(None, Some(100_000), 64, 1000), Ok(1000));
    assert_eq!(choose_groups(None, Some(usize::MAX), 1, u32::MAX), Ok(u32::MAX));
    assert_eq!(choose_groups(Some(5), Some(100_000), 64, 1000), Ok(5));
    assert_eq!(choose_groups(Some(1000), None, 64, 1000), Ok(1000));
    assert_eq!(
        choose_groups(Some(1001), None, 64, 1000),
        Err(ArgumentError::Groups { groups: 1001, max_groups: 1000 })
    );
    assert_eq!(choose_groups(None, None, 64, 1000), Err(ArgumentError::GroupsMissing));
}

#[test]
fn dispatch_refuses_bad_arguments() {
    let mut cache = KernelCache::new();
    let k = built(64, 1, false, &mut cache);
    let x = KernelSliceArg::Slice(slice(4, 0));
    let y = KernelSliceArg::SliceMut(slice(4, 1));
    let alpha = ScalarElem::F32(0);
    let err = |r: Result<krnl::dispatch::Dispatch, Error>| match r.unwrap_err() {
        Error::InvalidArgument { reason } => reason,
        other => panic!("{other:?}"),
    };
    assert_eq!(err(k.dispatch(&[x, y], &[])), ArgumentError::PushCount);
    assert_eq!(err(k.dispatch(&[x, y], &[ScalarElem::U32(0)])), ArgumentError::PushType(0));
    assert_eq!(err(k.dispatch(&[x], &[alpha])), ArgumentError::SliceCount);
    assert_eq!(err(k.dispatch(&[x, x], &[alpha])), ArgumentError::SliceMutability(1));
    let ints = KernelSliceArg::Slice(ScalarSlice { scalar_type: ScalarType::U32, ..slice(4, 0) });
    assert_eq!(err(k.dispatch(&[ints, y], &[alpha])), ArgumentError::SliceType(0));
    let empty = KernelSliceArg::Slice(ScalarSlice { len: 0, ..slice(4, 0) });
    assert_eq!(err(k.dispatch(&[empty, y], &[alpha])), ArgumentError::SliceEmpty(0));
    let host = KernelSliceArg::SliceMut(ScalarSlice { buffer: None, ..slice(4, 0) });
    assert_eq!(err(k.dispatch(&[x, host], &[alpha])), ArgumentError::SliceOnHost(1));
    let elsewhere = DeviceBuffer { device: DeviceId { index: 1, handle: 2 }, ..buffer(16, 0) };
    let other = KernelSliceArg::Slice(ScalarSlice { buffer: Some(elsewhere), ..slice(4, 0) });
    assert_eq!(err(k.dispatch(&[other, y], &[alpha])), ArgumentError::SliceDevice(0));
    let k = k.with_groups(1001);
    assert_eq!(
        err(k.dispatch(&[x, y], &[alpha])),
        ArgumentError::Groups { groups: 1001, max_groups: 1000 }
    );
}

#[test]
fn slice_of_too_many_elements_is_out_of_range() {
    let desc = SliceDesc { name: "b", scalar_type: ScalarType::U8, mutable: false, item: false };
    let alloc = ChunkAlloc { slot: 0, block: Block { start: 0, end: 1 << 33 } };
    let big = DeviceBuffer::in_block(id(), alloc, 1 << 33, 0, false).unwrap();
    let arg = KernelSliceArg::Slice(ScalarSlice {
        scalar_type: ScalarType::U8,
        len: 16,
        buffer: Some(big),
    });
    assert_eq!(check_slice(&desc, &arg, id(), 3), Some(ArgumentError::SliceRange(3)));
    let fine = KernelSliceArg::Slice(ScalarSlice {
        scalar_type: ScalarType::U8,
        len: 16,
        buffer: Some(big.slice(0, 16).unwrap()),
    });
    assert_eq!(check_slice(&desc, &fine, id(), 3), None);
}

#[test]
fn dispatch_without_items_needs_groups() {
    let mut cache = KernelCache::new();
    let builder = KernelBuilder::from_desc(9, saxpy(132, false)).unwrap();
    let mut desc = builder.desc.specialize(64, &[ScalarElem::U32(1)], false).unwrap();
    desc.slice_descs = vec![SliceDesc { item: false, ..SLICES[1] }];
    desc.push_descs = vec![];
    let key = KernelKey::new(9, &[], 64);
    let raw = cache.insert(key, RawKernel { desc, device: info(false), pipeline: 0 });
    let k = Kernel::new(raw).unwrap();
    let y = KernelSliceArg::SliceMut(slice(4, 1));
    assert_eq!(
        k.dispatch(&[y], &[]).unwrap_err(),
        Error::InvalidArgument { reason: ArgumentError::GroupsMissing }
    );
    let k = k.with_groups(3);
    assert_eq!(k.dispatch(&[y], &[]).unwrap().groups, 3);
}

#[test]
fn futures_are_locked_in_the_order_of_their_cells() {
    let buffers = vec![buffer(16, 9), buffer(16, 2), buffer(16, 5), buffer(16, 2)];
    let descs = vec![
        SliceDesc { name: "a", scalar_type: ScalarType::F32, mutable: true, item: true },
        SliceDesc { name: "b", scalar_type: ScalarType::F32, mutable: false, item: true },
        SliceDesc { name: "c", scalar_type: ScalarType::F32, mutable: false, item: true },
        SliceDesc { name: "d", scalar_type: ScalarType::F32, mutable: true, item: true },
    ];
    assert_eq!(
        lock_order(&buffers, &descs),
        vec![
            FutureLock { cell: 2, mutable: false },
            FutureLock { cell: 2, mutable: true },
            FutureLock { cell: 5, mutable: false },
            FutureLock { cell: 9, mutable: true },
        ]
    );
    assert_eq!(lock_order(&vec![], &vec![]), vec![]);
}

#[test]
fn a_cell_that_slices_share_is_locked_once() {
    let locks = vec![
        FutureLock { cell: 2, mutable: false },
        FutureLock { cell: 2, mutable: true },
        FutureLock { cell: 2, mutable: false },
        FutureLock { cell: 5, mutable: false },
        FutureLock { cell: 5, mutable: false },
        FutureLock { cell: 9, mutable: true },
    ];
    assert_eq!(
        merge_locks(&locks),
        vec![
            FutureLock { cell: 2, mutable: true },
            FutureLock { cell: 5, mutable: false },
            FutureLock { cell: 9, mutable: true },
        ]
    );
    assert_eq!(merge_locks(&vec![]), vec![]);
    let one = vec![FutureLock { cell: 1, mutable: false }];
    assert_eq!(merge_locks(&one), one);
}

#[test]
fn a_dispatch_puts_its_future_in_the_cells_it_writes() {
    let worker = WorkerState::new();
    let a = worker.next();
    let b = worker.next();
    let new = worker.next();
    let locks = vec![FutureLock { cell: 1, mutable: false }, FutureLock { cell: 2, mutable: true }];
    let cells = vec![a.duplicate(), b.duplicate()];
    let after = update_futures(&locks, &cells, &new);
    assert_eq!(after.len(), 2);
    assert_eq!(after[0].pending, a.pending);
    assert_eq!(after[1].pending, new.pending);
    let next = worker.next();
    let again = update_futures(&locks, &after, &next);
    assert_eq!(again[0].pending, a.pending);
    assert_eq!(again[1].pending, next.pending);
    assert_ne!(next.pending, new.pending);
}

#[test]
fn dependent_dispatches_chain_their_futures() {
    let worker = WorkerState::new();
    let write = FutureLock { cell: 0, mutable: true };
    let uploaded = worker.next();
    let mut cell = uploaded.duplicate();
    let first_waits_for = cell.duplicate();
    let first = worker.next();
    cell = updated_future(&write, cell, &first);
    let second_waits_for = cell.duplicate();
    let second = worker.next();
    cell = updated_future(&write, cell, &second);
    assert_eq!(first_waits_for.pending, uploaded.pending);
    assert_eq!(second_waits_for.pending, first.pending);
    assert_eq!(cell.pending, second.pending);
    worker.finish();
    assert!(first_waits_for.ready());
    assert!(!second_waits_for.ready());
    worker.finish();
    assert!(second_waits_for.ready());
    assert!(!cell.ready());
    worker.finish();
    assert!(cell.ready());
}

#[test]
fn readers_share_a_future_and_writers_replace_their_own() {
    let worker = WorkerState::new();
    let src = worker.next();
    let read = FutureLock { cell: 0, mutable: false };
    let write = FutureLock { cell: 1, mutable: true };
    let op1 = worker.next();
    let op2 = worker.next();
    let src_after_1 = updated_future(&read, src.duplicate(), &op1);
    let src_after_2 = updated_future(&read, src_after_1, &op2);
    assert_eq!(src_after_2.pending, src.pending);
    let dst1 = updated_future(&write, krnl::worker::WorkerFuture::new(), &op1);
    let dst2 = updated_future(&write, krnl::worker::WorkerFuture::new(), &op2);
    assert_eq!(dst1.pending, op1.pending);
    assert_eq!(dst2.pending, op2.pending);
}

#[test]
fn a_panic_in_a_debug_printf_kernel_is_an_error() {
    assert_eq!(dispatch_result(false, Ok(()), true, "saxpy"), Ok(()));
    assert_eq!(dispatch_result(true, Ok(()), false, "saxpy"), Ok(()));
    assert_eq!(
        dispatch_result(true, Ok(()), true, "saxpy"),
        Err(Error::KernelPanic { name: "saxpy".to_string() })
    );
    let lost = Error::DeviceLost { index: 0, handle: 1 };
    assert_eq!(
        dispatch_result(true, Err(Error::DeviceLost { index: 0, handle: 1 }), true, "saxpy"),
        Err(lost)
    );
    let mut cache = KernelCache::new();
    let k = built(64, 1, true, &mut cache);
    let x = KernelSliceArg::Slice(slice(4, 0));
    let y = KernelSliceArg::SliceMut(slice(4, 1));
    assert!(k.dispatch(&[x, y], &[ScalarElem::F32(0)]).unwrap().debug_printf);
}
