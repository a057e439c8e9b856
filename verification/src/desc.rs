//! What describes a kernel to the engine: its module, the features it requires, its threads,
//! and the slices and push constants it takes. Also the key by which built kernels are kept.
use vstd::prelude::*;
use vstd::string::StringSliceAdditionalSpecFns;
use crate::error::Error;
use crate::error::SpecError;
use crate::features::Features;
use crate::scalar::bytes_of;
use crate::scalar::le_bytes;
use crate::scalar::lemma_le_bytes_len;
use crate::scalar::ScalarElem;
use crate::scalar::ScalarType;
use crate::slab::round_up;
use crate::specialize::specialize;
use crate::specialize::specialized;
use crate::spirv::loaded_parts;

verus! {

/// Whether `a` and `b` are the same bytes.
pub fn bytes_eq(a: &[u8], b: &[u8]) -> (r: bool)
    ensures
        r == (a@ == b@),
{
    if a.len() != b.len() {
        return false;
    }
    let mut i: usize = 0;
    while i < a.len()
        invariant
            i <= a.len(),
            a.len() == b.len(),
            forall|j: int| 0 <= j < i ==> a@[j] == b@[j],
        decreases a.len() - i,
    {
        if a[i] != b[i] {
            return false;
        }
        i = i + 1;
    }
    proof {
        assert(a@ =~= b@);
    }
    true
}

/// Whether `a` and `b` are the same scalar type.
pub fn scalar_type_const_eq(a: ScalarType, b: ScalarType) -> (r: bool)
    ensures
        r == (a == b),
{
    a == b
}

/// A specialization constant of a kernel.
#[derive(Clone, Copy, Debug)]
pub struct SpecDesc {
    pub name: &'static str,
    pub scalar_type: ScalarType,
}

/// A slice argument of a kernel.
#[derive(Clone, Copy, Debug)]
pub struct SliceDesc {
    pub name: &'static str,
    pub scalar_type: ScalarType,
    pub mutable: bool,
    pub item: bool,
}

/// A push constant of a kernel.
#[derive(Clone, Copy, Debug)]
pub struct PushDesc {
    pub name: &'static str,
    pub scalar_type: ScalarType,
}

impl SpecDesc {
    /// The two have the same name, byte for byte, and the same type.
    pub open spec fn matches(self, other: SpecDesc) -> bool {
        self.name.spec_bytes() == other.name.spec_bytes() && self.scalar_type == other.scalar_type
    }

    /// Whether the two have the same name and the same type.
    pub fn const_eq(&self, other: &Self) -> (r: bool)
        ensures
            r == self.matches(*other),
    {
        bytes_eq(self.name.as_bytes(), other.name.as_bytes()) && scalar_type_const_eq(
            self.scalar_type,
            other.scalar_type,
        )
    }
}

impl SliceDesc {
    /// The two have the same name, byte for byte, the same type and the same flags.
    pub open spec fn matches(self, other: SliceDesc) -> bool {
        &&& self.name.spec_bytes() == other.name.spec_bytes()
        &&& self.scalar_type == other.scalar_type
        &&& self.mutable == other.mutable
        &&& self.item == other.item
    }

    /// Whether the two describe the same argument.
    pub fn const_eq(&self, other: &Self) -> (r: bool)
        ensures
            r == self.matches(*other),
    {
        bytes_eq(self.name.as_bytes(), other.name.as_bytes()) && scalar_type_const_eq(
            self.scalar_type,
            other.scalar_type,
        ) && self.mutable == other.mutable && self.item == other.item
    }
}

impl PushDesc {
    /// The two have the same name, byte for byte, and the same type.
    pub open spec fn matches(self, other: PushDesc) -> bool {
        self.name.spec_bytes() == other.name.spec_bytes() && self.scalar_type == other.scalar_type
    }

    /// Whether the two describe the same argument.
    pub fn const_eq(&self, other: &Self) -> (r: bool)
        ensures
            r == self.matches(*other),
    {
        bytes_eq(self.name.as_bytes(), other.name.as_bytes()) && scalar_type_const_eq(
            self.scalar_type,
            other.scalar_type,
        )
    }
}

/// A copy of `v`.
pub fn copy_vec<T: Copy>(v: &[T]) -> (r: Vec<T>)
    ensures
        r@ == v@,
{
    let mut out: Vec<T> = Vec::new();
    let mut i: usize = 0;
    while i < v.len()
        invariant
            i <= v.len(),
            out@ == v@.take(i as int),
        decreases v.len() - i,
    {
        out.push(v[i]);
        proof {
            assert(v@.take(i as int + 1) == v@.take(i as int).push(v@[i as int]));
        }
        i = i + 1;
    }
    proof {
        assert(v@.take(v.len() as int) == v@);
    }
    out
}

/// Where the push constants end after the first `n` of them, each put at the next multiple
/// of its size.
pub open spec fn push_end(types: Seq<ScalarType>, n: int) -> int
    decreases n,
{
    if n <= 0 {
        0
    } else {
        round_up(push_end(types, n - 1), types[n - 1].spec_size() as int) + types[n - 1].spec_size()
    }
}

/// Size in bytes of the push-constant block of a kernel with push constants of the types
/// `types` and with `slices` slices: the push constants, each at a multiple of its size,
/// filled up to a multiple of 4, and then two words for each slice.
pub open spec fn push_range(types: Seq<ScalarType>, slices: int) -> int {
    round_up(push_end(types, types.len() as int), 4) + 8 * slices
}

/// The types of the push constants `descs`.
pub open spec fn push_types(descs: Seq<PushDesc>) -> Seq<ScalarType> {
    Seq::new(descs.len(), |i: int| descs[i].scalar_type)
}

/// The types of the values `values`.
pub open spec fn value_types(values: Seq<ScalarElem>) -> Seq<ScalarType> {
    Seq::new(values.len(), |i: int| values[i].spec_scalar_type())
}

/// The types of the specialization constants `descs`.
pub open spec fn spec_types(descs: Seq<SpecDesc>) -> Seq<ScalarType> {
    Seq::new(descs.len(), |i: int| descs[i].scalar_type)
}

/// `x` rounded up to a multiple of `size`, a size of a scalar.
pub fn round_up_to(x: u128, size: usize) -> (r: u128)
    requires
        size == 1 || size == 2 || size == 4 || size == 8,
        x <= u128::MAX - 8,
    ensures
        r == round_up(x as int, size as int),
        x <= r < x + size,
{
    if size == 1 {
        x
    } else if size == 2 {
        if x % 2 == 0 { x } else { x - x % 2 + 2 }
    } else if size == 4 {
        if x % 4 == 0 { x } else { x - x % 4 + 4 }
    } else {
        if x % 8 == 0 { x } else { x - x % 8 + 8 }
    }
}

/// A kernel as the engine builds and dispatches it.
#[derive(Debug)]
pub struct KernelDesc {
    pub name: &'static str,
    /// The module's words.
    pub spirv: Vec<u32>,
    pub features: Features,
    /// Threads in a group; 0 before the kernel is specialized.
    pub threads: u32,
    /// The specialization constants; none once the kernel is specialized.
    pub spec_descs: Vec<SpecDesc>,
    pub slice_descs: Vec<SliceDesc>,
    pub push_descs: Vec<PushDesc>,
}

impl KernelDesc {
    /// Size in bytes of the kernel's push-constant block.
    pub open spec fn spec_push_consts_range(&self) -> int {
        push_range(push_types(self.push_descs@), self.slice_descs@.len() as int)
    }

    /// The descriptor's invariant: the push-constant block has a size that a pipeline layout
    /// can state.
    pub open spec fn wf(&self) -> bool {
        self.spec_push_consts_range() <= u32::MAX
    }

    /// Size in bytes of the kernel's push-constant block, if a pipeline layout can state it.
    pub fn checked_push_consts_range(&self) -> (r: Option<u32>)
        ensures
            r == if self.spec_push_consts_range() <= u32::MAX {
                Some(self.spec_push_consts_range() as u32)
            } else {
                None
            },
            0 <= self.spec_push_consts_range(),
            self.spec_push_consts_range() % 4 == 0,
    {
        let ghost types = push_types(self.push_descs@);
        let mut size: u128 = 0;
        let mut i: usize = 0;
        while i < self.push_descs.len()
            invariant
                i <= self.push_descs.len(),
                types == push_types(self.push_descs@),
                size == push_end(types, i as int),
                size <= 16 * i,
            decreases self.push_descs.len() - i,
        {
            let width: usize = self.push_descs[i].scalar_type.size();
            assert(types[i as int] == self.push_descs@[i as int].scalar_type);
            size = round_up_to(size, width) + width as u128;
            i = i + 1;
        }
        let padded: u128 = round_up_to(size, 4);
        let total: u128 = padded + 8 * (self.slice_descs.len() as u128);
        if total <= u32::MAX as u128 {
            Some(total as u32)
        } else {
            None
        }
    }

    /// Size in bytes of the kernel's push-constant block.
    pub fn push_consts_range(&self) -> (r: u32)
        requires
            self.wf(),
        ensures
            r == self.spec_push_consts_range(),
    {
        match self.checked_push_consts_range() {
            Some(r) => r,
            None => 0,
        }
    }

    /// Whether `consts` are values for the kernel's specialization constants: as many, and
    /// of the declared types.
    pub fn takes(&self, consts: &[ScalarElem]) -> (r: bool)
        ensures
            r == (value_types(consts@) == spec_types(self.spec_descs@)),
    {
        if consts.len() != self.spec_descs.len() {
            assert(value_types(consts@).len() != spec_types(self.spec_descs@).len());
            return false;
        }
        let mut i: usize = 0;
        while i < consts.len()
            invariant
                i <= consts.len(),
                consts.len() == self.spec_descs.len(),
                forall|j: int|
                    0 <= j < i ==> consts@[j].spec_scalar_type() == self.spec_descs@[j].scalar_type,
            decreases consts.len() - i,
        {
            if consts[i].scalar_type() != self.spec_descs[i].scalar_type {
                assert(value_types(consts@)[i as int] != spec_types(self.spec_descs@)[i as int]);
                return false;
            }
            i = i + 1;
        }
        proof {
            assert(value_types(consts@) =~= spec_types(self.spec_descs@));
        }
        true
    }

    /// The kernel for `threads` threads in a group and the values `spec_consts` of its
    /// specialization constants: its module is specialized, and no specialization constant
    /// is left.
    pub fn specialize(&self, threads: u32, spec_consts: &[ScalarElem], debug_printf: bool) -> (r:
        Result<KernelDesc, Error>)
        ensures
            match r {
                Ok(d) => {
                    &&& specialized(loaded_parts(self.spirv@), threads, spec_consts@, debug_printf)
                        == Ok::<Seq<u32>, SpecError>(d.spirv@)
                    &&& d.name == self.name
                    &&& d.features == self.features
                    &&& d.threads == threads
                    &&& d.spec_descs@.len() == 0
                    &&& d.slice_descs@ == self.slice_descs@
                    &&& d.push_descs@ == self.push_descs@
                },
                Err(e) => exists|reason: SpecError|
                    e == (Error::Spec { reason }) && specialized(
                        loaded_parts(self.spirv@),
                        threads,
                        spec_consts@,
                        debug_printf,
                    ) == Err::<Seq<u32>, SpecError>(reason),
            },
            self.wf() && r is Ok ==> r->Ok_0.wf(),
    {
        match specialize(self.spirv.as_slice(), threads, spec_consts, debug_printf) {
            Ok(spirv) => Ok(
                KernelDesc {
                    name: self.name,
                    spirv,
                    features: self.features,
                    threads,
                    spec_descs: Vec::new(),
                    slice_descs: copy_vec(self.slice_descs.as_slice()),
                    push_descs: copy_vec(self.push_descs.as_slice()),
                },
            ),
            Err(reason) => Err(Error::Spec { reason }),
        }
    }
}

/// One binding of a kernel's descriptor set: a storage buffer.
#[derive(Clone, Copy, Debug, PartialEq, Eq, Structural)]
pub struct Binding {
    pub binding: u32,
    /// Whether the kernel writes the buffer.
    pub writable: bool,
}

/// What the pipeline of a kernel is laid out with: one storage buffer for each slice, in set
/// 0, and the range of the push constants, if the kernel has any bytes of them.
#[derive(Debug)]
pub struct PipelineLayout {
    pub bindings: Vec<Binding>,
    pub push_constant_range: Option<u32>,
}

impl KernelDesc {
    /// Binding `i` of the kernel.
    pub open spec fn spec_binding(&self, i: int) -> Binding {
        Binding { binding: i as u32, writable: self.slice_descs@[i].mutable }
    }

    /// The layout of the kernel's pipeline.
    pub fn pipeline_layout(&self) -> (r: PipelineLayout)
        requires
            self.wf(),
        ensures
            r.bindings@ == Seq::new(self.slice_descs@.len(), |i: int| self.spec_binding(i)),
            r.push_constant_range == if self.spec_push_consts_range() > 0 {
                Some(self.spec_push_consts_range() as u32)
            } else {
                None
            },
    {
        let range = self.push_consts_range();
        let mut bindings: Vec<Binding> = Vec::new();
        let mut i: usize = 0;
        proof {
            assert(self.spec_push_consts_range() >= 8 * self.slice_descs@.len()) by {
                self.lemma_range_bounds();
            }
        }
        while i < self.slice_descs.len()
            invariant
                i <= self.slice_descs.len(),
                self.slice_descs@.len() <= u32::MAX,
                bindings@.len() == i,
                forall|j: int| 0 <= j < i ==> bindings@[j] == self.spec_binding(j),
            decreases self.slice_descs.len() - i,
        {
            bindings.push(Binding { binding: i as u32, writable: self.slice_descs[i].mutable });
            i = i + 1;
        }
        proof {
            assert(bindings@ =~= Seq::new(self.slice_descs@.len(), |i: int| self.spec_binding(i)));
        }
        PipelineLayout { bindings, push_constant_range: if range > 0 { Some(range) } else { None } }
    }

    /// The push-constant block has at least the two words of each slice.
    pub proof fn lemma_range_bounds(&self)
        ensures
            self.spec_push_consts_range() >= 8 * self.slice_descs@.len(),
    {
        lemma_push_end_bounds(push_types(self.push_descs@), self.push_descs@.len() as int);
    }
}

/// The push constants end at or after 0.
pub proof fn lemma_push_end_bounds(types: Seq<ScalarType>, n: int)
    ensures
        push_end(types, n) >= 0,
    decreases n,
{
    if n > 0 {
        lemma_push_end_bounds(types, n - 1);
    }
}

/// The bytes of the first `n` of `consts`, one value after the other.
pub open spec fn consts_bytes(consts: Seq<ScalarElem>, n: int) -> Seq<u8>
    decreases n,
{
    if n <= 0 {
        Seq::empty()
    } else {
        consts_bytes(consts, n - 1) + consts[n - 1].spec_bytes()
    }
}

/// What a kernel with the specialization constants `consts` and `threads` threads in a group
/// is keyed by: the bytes of the constants, then those of the threads.
pub open spec fn key_bytes(consts: Seq<ScalarElem>, threads: u32) -> Seq<u8> {
    consts_bytes(consts, consts.len() as int) + le_bytes(threads as nat, 4)
}

/// The key of a built kernel: which kernel it was declared as, and what it was specialized
/// with.
#[derive(PartialEq, Eq, Hash, Debug)]
pub struct KernelKey {
    pub id: usize,
    pub spec_bytes: Vec<u8>,
}

impl View for KernelKey {
    type V = (usize, Seq<u8>);

    open spec fn view(&self) -> (usize, Seq<u8>) {
        (self.id, self.spec_bytes@)
    }
}

impl KernelKey {
    /// The key of the kernel declared as `id`, specialized with `consts` and `threads`.
    pub fn new(id: usize, consts: &[ScalarElem], threads: u32) -> (r: KernelKey)
        ensures
            r@ == (id, key_bytes(consts@, threads)),
    {
        let mut bytes: Vec<u8> = Vec::new();
        let mut i: usize = 0;
        while i < consts.len()
            invariant
                i <= consts.len(),
                bytes@ == consts_bytes(consts@, i as int),
            decreases consts.len() - i,
        {
            let b = consts[i].as_bytes();
            append_bytes(&mut bytes, &b);
            i = i + 1;
        }
        let t = bytes_of(threads as u64, 4);
        append_bytes(&mut bytes, &t);
        KernelKey { id, spec_bytes: bytes }
    }

    /// A copy of the key.
    pub fn duplicate(&self) -> (r: KernelKey)
        ensures
            r@ == self@,
    {
        KernelKey { id: self.id, spec_bytes: copy_vec(self.spec_bytes.as_slice()) }
    }
}

/// Appends the bytes of `src` to `out`.
pub fn append_bytes(out: &mut Vec<u8>, src: &Vec<u8>)
    ensures
        final(out)@ == old(out)@ + src@,
{
    let mut i: usize = 0;
    while i < src.len()
        invariant
            i <= src.len(),
            out@ == old(out)@ + src@.take(i as int),
        decreases src.len() - i,
    {
        out.push(src[i]);
        proof {
            assert(src@.take(i as int + 1) == src@.take(i as int).push(src@[i as int]));
        }
        i = i + 1;
    }
    proof {
        assert(src@.take(src.len() as int) == src@);
    }
}

/// Kernels that are specialized with the same constants and different threads have
/// different keys.
pub proof fn lemma_key_tells_threads(consts: Seq<ScalarElem>, a: u32, b: u32)
    requires
        key_bytes(consts, a) == key_bytes(consts, b),
    ensures
        a == b,
{
    let head = consts_bytes(consts, consts.len() as int);
    let x = le_bytes(a as nat, 4);
    let y = le_bytes(b as nat, 4);
    lemma_le_bytes_len(a as nat, 4);
    lemma_le_bytes_len(b as nat, 4);
    assert(x =~= (head + x).subrange(head.len() as int, head.len() as int + 4));
    assert(y =~= (head + y).subrange(head.len() as int, head.len() as int + 4));
    crate::scalar::lemma_le_value_of_bytes(a as nat, 4);
    crate::scalar::lemma_le_value_of_bytes(b as nat, 4);
}

/// Two lists that are equal when something follows each, and have one length, are equal,
/// and so is what follows them.
pub proof fn lemma_split_equal(a: Seq<u8>, x: Seq<u8>, b: Seq<u8>, y: Seq<u8>)
    requires
        a + x == b + y,
        a.len() == b.len(),
    ensures
        a == b,
        x == y,
{
    assert(a =~= (a + x).subrange(0, a.len() as int));
    assert(b =~= (b + y).subrange(0, b.len() as int));
    assert(x =~= (a + x).subrange(a.len() as int, (a + x).len() as int));
    assert(y =~= (b + y).subrange(b.len() as int, (b + y).len() as int));
}

/// Two values of one type with the same bytes are the same value.
pub proof fn lemma_bytes_tell_value(a: ScalarElem, b: ScalarElem)
    requires
        a.spec_scalar_type() == b.spec_scalar_type(),
        a.spec_bytes() == b.spec_bytes(),
    ensures
        a == b,
{
    let n = a.spec_scalar_type().spec_size();
    crate::scalar::lemma_le_value_of_bytes(a.bits(), n);
    crate::scalar::lemma_le_value_of_bytes(b.bits(), n);
    assert(a.bits() == b.bits());
}

/// The bytes of the first `n` values of two lists of the same types are as many.
pub proof fn lemma_consts_bytes_len(a: Seq<ScalarElem>, b: Seq<ScalarElem>, n: int)
    requires
        value_types(a) == value_types(b),
        0 <= n <= a.len(),
    ensures
        consts_bytes(a, n).len() == consts_bytes(b, n).len(),
    decreases n,
{
    if n > 0 {
        lemma_consts_bytes_len(a, b, n - 1);
        assert(value_types(a).len() == a.len() && value_types(b).len() == b.len());
        assert(value_types(a)[n - 1] == a[n - 1].spec_scalar_type());
        assert(value_types(b)[n - 1] == b[n - 1].spec_scalar_type());
        lemma_le_bytes_len(a[n - 1].bits(), a[n - 1].spec_scalar_type().spec_size());
        lemma_le_bytes_len(b[n - 1].bits(), b[n - 1].spec_scalar_type().spec_size());
    }
}

/// Two lists of values of the same types whose first `n` values have the same bytes have the
/// same first `n` values.
pub proof fn lemma_consts_bytes_tell(a: Seq<ScalarElem>, b: Seq<ScalarElem>, n: int)
    requires
        value_types(a) == value_types(b),
        0 <= n <= a.len(),
        consts_bytes(a, n) == consts_bytes(b, n),
    ensures
        a.take(n) == b.take(n),
    decreases n,
{
    assert(a.len() == value_types(a).len());
    assert(b.len() == value_types(b).len());
    if n > 0 {
        lemma_consts_bytes_len(a, b, n - 1);
        lemma_split_equal(
            consts_bytes(a, n - 1),
            a[n - 1].spec_bytes(),
            consts_bytes(b, n - 1),
            b[n - 1].spec_bytes(),
        );
        lemma_consts_bytes_tell(a, b, n - 1);
        assert(value_types(a).len() == a.len() && value_types(b).len() == b.len());
        assert(value_types(a)[n - 1] == a[n - 1].spec_scalar_type());
        assert(value_types(b)[n - 1] == b[n - 1].spec_scalar_type());
        lemma_bytes_tell_value(a[n - 1], b[n - 1]);
        assert(a.take(n) =~= a.take(n - 1).push(a[n - 1]));
        assert(b.take(n) =~= b.take(n - 1).push(b[n - 1]));
    } else {
        assert(a.take(0) =~= b.take(0));
    }
}

/// Kernels of one declaration have the same key only if they are specialized with the same
/// constants and the same threads: no two specializations share a place in the cache.
pub proof fn lemma_key_tells_specialization(a: Seq<ScalarElem>, s: u32, b: Seq<ScalarElem>, t: u32)
    requires
        value_types(a) == value_types(b),
        key_bytes(a, s) == key_bytes(b, t),
    ensures
        a == b,
        s == t,
{
    assert(a.len() == value_types(a).len());
    assert(b.len() == value_types(b).len());
    lemma_consts_bytes_len(a, b, a.len() as int);
    lemma_split_equal(
        consts_bytes(a, a.len() as int),
        le_bytes(s as nat, 4),
        consts_bytes(b, b.len() as int),
        le_bytes(t as nat, 4),
    );
    lemma_consts_bytes_tell(a, b, a.len() as int);
    assert(a.take(a.len() as int) == a);
    assert(b.take(b.len() as int) == b);
    lemma_key_tells_threads(b, s, t);
}

} // verus!
