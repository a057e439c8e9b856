//! Scalar types of kernel arguments and constants, and their values.
//!
//! A value of a floating-point type is held by its bit pattern: the engine moves such values
//! between host and module and never computes with them.
use vstd::prelude::*;

verus! {

/// Tag of a scalar type.
#[derive(Clone, Copy, Debug, PartialEq, Eq, Structural, Hash)]
pub enum ScalarType {
    U8,
    I8,
    U16,
    I16,
    F16,
    BF16,
    U32,
    I32,
    F32,
    U64,
    I64,
    F64,
}

impl ScalarType {
    /// Width of the type in bytes.
    pub open spec fn spec_size(self) -> nat {
        match self {
            ScalarType::U8 | ScalarType::I8 => 1,
            ScalarType::U16 | ScalarType::I16 | ScalarType::F16 | ScalarType::BF16 => 2,
            ScalarType::U32 | ScalarType::I32 | ScalarType::F32 => 4,
            ScalarType::U64 | ScalarType::I64 | ScalarType::F64 => 8,
        }
    }

    /// Whether the type is an integer type.
    pub open spec fn is_int(self) -> bool {
        !(self is F16 || self is BF16 || self is F32 || self is F64)
    }

    /// Whether the type is a signed integer type.
    pub open spec fn is_signed(self) -> bool {
        self is I8 || self is I16 || self is I32 || self is I64
    }

    /// Least value of an integer type (0 for the others).
    pub open spec fn min_int(self) -> int {
        match self {
            ScalarType::I8 => -0x80,
            ScalarType::I16 => -0x8000,
            ScalarType::I32 => -0x8000_0000,
            ScalarType::I64 => -0x8000_0000_0000_0000,
            _ => 0,
        }
    }

    /// Greatest value of an integer type (0 for the others).
    pub open spec fn max_int(self) -> int {
        match self {
            ScalarType::U8 => 0xff,
            ScalarType::I8 => 0x7f,
            ScalarType::U16 => 0xffff,
            ScalarType::I16 => 0x7fff,
            ScalarType::U32 => 0xffff_ffff,
            ScalarType::I32 => 0x7fff_ffff,
            ScalarType::U64 => 0xffff_ffff_ffff_ffff,
            ScalarType::I64 => 0x7fff_ffff_ffff_ffff,
            _ => 0,
        }
    }

    /// Number of bit patterns of the type: 256 to the power of its size.
    pub open spec fn patterns(self) -> int {
        if self.spec_size() == 1 {
            0x100
        } else if self.spec_size() == 2 {
            0x1_0000
        } else if self.spec_size() == 4 {
            0x1_0000_0000
        } else {
            0x1_0000_0000_0000_0000
        }
    }

    /// Width of the type in bytes.
    pub fn size(&self) -> (r: usize)
        ensures
            r == self.spec_size(),
            r == 1 || r == 2 || r == 4 || r == 8,
    {
        match self {
            ScalarType::U8 | ScalarType::I8 => 1,
            ScalarType::U16 | ScalarType::I16 | ScalarType::F16 | ScalarType::BF16 => 2,
            ScalarType::U32 | ScalarType::I32 | ScalarType::F32 => 4,
            ScalarType::U64 | ScalarType::I64 | ScalarType::F64 => 8,
        }
    }

    /// Whether the type is an integer type.
    pub fn is_integer(&self) -> (r: bool)
        ensures
            r == self.is_int(),
    {
        match self {
            ScalarType::F16 | ScalarType::BF16 | ScalarType::F32 | ScalarType::F64 => false,
            _ => true,
        }
    }
}

/// A scalar value. The floating-point variants hold the value's bit pattern.
#[derive(Clone, Copy, Debug, PartialEq, Eq, Structural)]
pub enum ScalarElem {
    U8(u8),
    I8(i8),
    U16(u16),
    I16(i16),
    F16(u16),
    BF16(u16),
    U32(u32),
    I32(i32),
    F32(u32),
    U64(u64),
    I64(i64),
    F64(u64),
}

/// The `n` low bytes of `v`, least significant first.
pub open spec fn le_bytes(v: nat, n: nat) -> Seq<u8>
    decreases n,
{
    if n == 0 {
        Seq::empty()
    } else {
        seq![(v % 256) as u8] + le_bytes(v / 256, (n - 1) as nat)
    }
}

/// The number that the bytes `s` spell, least significant first.
pub open spec fn le_value(s: Seq<u8>) -> nat
    decreases s.len(),
{
    if s.len() == 0 {
        0
    } else {
        s[0] as nat + 256 * le_value(s.subrange(1, s.len() as int))
    }
}

impl ScalarElem {
    /// The type of the value.
    pub open spec fn spec_scalar_type(self) -> ScalarType {
        match self {
            ScalarElem::U8(_) => ScalarType::U8,
            ScalarElem::I8(_) => ScalarType::I8,
            ScalarElem::U16(_) => ScalarType::U16,
            ScalarElem::I16(_) => ScalarType::I16,
            ScalarElem::F16(_) => ScalarType::F16,
            ScalarElem::BF16(_) => ScalarType::BF16,
            ScalarElem::U32(_) => ScalarType::U32,
            ScalarElem::I32(_) => ScalarType::I32,
            ScalarElem::F32(_) => ScalarType::F32,
            ScalarElem::U64(_) => ScalarType::U64,
            ScalarElem::I64(_) => ScalarType::I64,
            ScalarElem::F64(_) => ScalarType::F64,
        }
    }

    /// The number that the variant holds: the value of an integer, the bit pattern of a float.
    pub open spec fn payload(self) -> int {
        match self {
            ScalarElem::U8(x) => x as int,
            ScalarElem::I8(x) => x as int,
            ScalarElem::U16(x) => x as int,
            ScalarElem::I16(x) => x as int,
            ScalarElem::F16(x) => x as int,
            ScalarElem::BF16(x) => x as int,
            ScalarElem::U32(x) => x as int,
            ScalarElem::I32(x) => x as int,
            ScalarElem::F32(x) => x as int,
            ScalarElem::U64(x) => x as int,
            ScalarElem::I64(x) => x as int,
            ScalarElem::F64(x) => x as int,
        }
    }

    /// The bit pattern as an unsigned number: a negative integer counts from the top, in two's
    /// complement.
    pub open spec fn bits(self) -> nat {
        if self.payload() < 0 {
            (self.payload() + self.spec_scalar_type().patterns()) as nat
        } else {
            self.payload() as nat
        }
    }

    /// The value's bytes in memory, least significant first.
    pub open spec fn spec_bytes(self) -> Seq<u8> {
        le_bytes(self.bits(), self.spec_scalar_type().spec_size())
    }

    /// The value with the given type and payload, where the payload fits the type.
    pub open spec fn with_payload(ty: ScalarType, v: int) -> ScalarElem {
        match ty {
            ScalarType::U8 => ScalarElem::U8(v as u8),
            ScalarType::I8 => ScalarElem::I8(v as i8),
            ScalarType::U16 => ScalarElem::U16(v as u16),
            ScalarType::I16 => ScalarElem::I16(v as i16),
            ScalarType::F16 => ScalarElem::F16(v as u16),
            ScalarType::BF16 => ScalarElem::BF16(v as u16),
            ScalarType::U32 => ScalarElem::U32(v as u32),
            ScalarType::I32 => ScalarElem::I32(v as i32),
            ScalarType::F32 => ScalarElem::F32(v as u32),
            ScalarType::U64 => ScalarElem::U64(v as u64),
            ScalarType::I64 => ScalarElem::I64(v as i64),
            ScalarType::F64 => ScalarElem::F64(v as u64),
        }
    }

    /// The value of type `ty` whose bit pattern is `bits`, where `bits` is below `ty.patterns()`.
    pub open spec fn with_bits(ty: ScalarType, bits: int) -> ScalarElem {
        if ty.is_signed() && bits > ty.max_int() {
            Self::with_payload(ty, bits - ty.patterns())
        } else {
            Self::with_payload(ty, bits)
        }
    }

    /// The type of the value.
    pub fn scalar_type(&self) -> (r: ScalarType)
        ensures
            r == self.spec_scalar_type(),
    {
        match self {
            ScalarElem::U8(_) => ScalarType::U8,
            ScalarElem::I8(_) => ScalarType::I8,
            ScalarElem::U16(_) => ScalarType::U16,
            ScalarElem::I16(_) => ScalarType::I16,
            ScalarElem::F16(_) => ScalarType::F16,
            ScalarElem::BF16(_) => ScalarType::BF16,
            ScalarElem::U32(_) => ScalarType::U32,
            ScalarElem::I32(_) => ScalarType::I32,
            ScalarElem::F32(_) => ScalarType::F32,
            ScalarElem::U64(_) => ScalarType::U64,
            ScalarElem::I64(_) => ScalarType::I64,
            ScalarElem::F64(_) => ScalarType::F64,
        }
    }

    /// The number that the variant holds.
    pub fn to_int(&self) -> (r: i128)
        ensures
            r == self.payload(),
    {
        match self {
            ScalarElem::U8(x) => *x as i128,
            ScalarElem::I8(x) => *x as i128,
            ScalarElem::U16(x) => *x as i128,
            ScalarElem::I16(x) => *x as i128,
            ScalarElem::F16(x) => *x as i128,
            ScalarElem::BF16(x) => *x as i128,
            ScalarElem::U32(x) => *x as i128,
            ScalarElem::I32(x) => *x as i128,
            ScalarElem::F32(x) => *x as i128,
            ScalarElem::U64(x) => *x as i128,
            ScalarElem::I64(x) => *x as i128,
            ScalarElem::F64(x) => *x as i128,
        }
    }

    /// The bit pattern as an unsigned number.
    pub fn to_bits(&self) -> (r: u64)
        ensures
            r == self.bits(),
            r < self.spec_scalar_type().patterns(),
    {
        let v: i128 = self.to_int();
        if v < 0 {
            let p: i128 = match self.scalar_type().size() {
                1 => 0x100,
                2 => 0x1_0000,
                4 => 0x1_0000_0000,
                _ => 0x1_0000_0000_0000_0000,
            };
            (v + p) as u64
        } else {
            v as u64
        }
    }

    /// The value's bytes in memory, least significant first.
    pub fn as_bytes(&self) -> (r: Vec<u8>)
        ensures
            r@ == self.spec_bytes(),
            r@.len() == self.spec_scalar_type().spec_size(),
    {
        let n: usize = self.scalar_type().size();
        let bits: u64 = self.to_bits();
        let r = bytes_of(bits, n);
        proof {
            lemma_le_bytes_len(bits as nat, n as nat);
        }
        r
    }

    /// The value of type `ty` with payload `v`, if `v` is one of `ty`'s payloads: for an
    /// integer type a value in its range, for a float type a bit pattern of its width.
    pub fn from_int(ty: ScalarType, v: i128) -> (r: Option<ScalarElem>)
        ensures
            r == Self::spec_from_int(ty, v as int),
    {
        match ty {
            ScalarType::U8 => if 0 <= v && v <= 0xff { Some(ScalarElem::U8(v as u8)) } else { None },
            ScalarType::I8 => if -0x80 <= v && v <= 0x7f { Some(ScalarElem::I8(v as i8)) } else { None },
            ScalarType::U16 => if 0 <= v && v <= 0xffff { Some(ScalarElem::U16(v as u16)) } else { None },
            ScalarType::I16 => if -0x8000 <= v && v <= 0x7fff { Some(ScalarElem::I16(v as i16)) } else { None },
            ScalarType::F16 => if 0 <= v && v <= 0xffff { Some(ScalarElem::F16(v as u16)) } else { None },
            ScalarType::BF16 => if 0 <= v && v <= 0xffff { Some(ScalarElem::BF16(v as u16)) } else { None },
            ScalarType::U32 => if 0 <= v && v <= 0xffff_ffff { Some(ScalarElem::U32(v as u32)) } else { None },
            ScalarType::I32 => if -0x8000_0000 <= v && v <= 0x7fff_ffff { Some(ScalarElem::I32(v as i32)) } else { None },
            ScalarType::F32 => if 0 <= v && v <= 0xffff_ffff { Some(ScalarElem::F32(v as u32)) } else { None },
            ScalarType::U64 => if 0 <= v && v <= 0xffff_ffff_ffff_ffff { Some(ScalarElem::U64(v as u64)) } else { None },
            ScalarType::I64 => if -0x8000_0000_0000_0000 <= v && v <= 0x7fff_ffff_ffff_ffff { Some(ScalarElem::I64(v as i64)) } else { None },
            ScalarType::F64 => if 0 <= v && v <= 0xffff_ffff_ffff_ffff { Some(ScalarElem::F64(v as u64)) } else { None },
        }
    }

    /// What `from_int` returns.
    pub open spec fn spec_from_int(ty: ScalarType, v: int) -> Option<ScalarElem> {
        if ty.holds(v) {
            Some(Self::with_payload(ty, v))
        } else {
            None
        }
    }

    /// The value of type `ty` whose bit pattern is the low `ty.size()` bytes of `bits`.
    pub fn from_bits(ty: ScalarType, bits: u64) -> (r: ScalarElem)
        ensures
            r == Self::with_bits(ty, bits as int % ty.patterns()),
            r.spec_scalar_type() == ty,
            r.bits() == bits as int % ty.patterns(),
    {
        let low: u64 = match ty.size() {
            1 => bits % 0x100,
            2 => bits % 0x1_0000,
            4 => bits % 0x1_0000_0000,
            _ => bits,
        };
        match ty {
            ScalarType::U8 => ScalarElem::U8(low as u8),
            ScalarType::I8 => ScalarElem::I8(if low > 0x7f { (low as i128 - 0x100) as i8 } else { low as i8 }),
            ScalarType::U16 => ScalarElem::U16(low as u16),
            ScalarType::I16 => ScalarElem::I16(if low > 0x7fff { (low as i128 - 0x1_0000) as i16 } else { low as i16 }),
            ScalarType::F16 => ScalarElem::F16(low as u16),
            ScalarType::BF16 => ScalarElem::BF16(low as u16),
            ScalarType::U32 => ScalarElem::U32(low as u32),
            ScalarType::I32 => ScalarElem::I32(if low > 0x7fff_ffff { (low as i128 - 0x1_0000_0000) as i32 } else { low as i32 }),
            ScalarType::F32 => ScalarElem::F32(low as u32),
            ScalarType::U64 => ScalarElem::U64(low),
            ScalarType::I64 => ScalarElem::I64(if low > 0x7fff_ffff_ffff_ffff { (low as i128 - 0x1_0000_0000_0000_0000) as i64 } else { low as i64 }),
            ScalarType::F64 => ScalarElem::F64(low),
        }
    }
}

impl ScalarType {
    /// Whether `v` is a payload of the type: a value in range for an integer type, a bit
    /// pattern of the type's width for a float type.
    pub open spec fn holds(self, v: int) -> bool {
        if self.is_int() {
            self.min_int() <= v <= self.max_int()
        } else {
            0 <= v < self.patterns()
        }
    }
}

/// The `n` low bytes of `v`, least significant first.
pub fn bytes_of(v: u64, n: usize) -> (r: Vec<u8>)
    requires
        n <= 8,
    ensures
        r@ == le_bytes(v as nat, n as nat),
{
    let mut out: Vec<u8> = Vec::new();
    let mut rest: u64 = v;
    let mut i: usize = 0;
    while i < n
        invariant
            i <= n,
            out@.len() == i,
            out@ + le_bytes(rest as nat, (n - i) as nat) == le_bytes(v as nat, n as nat),
        decreases n - i,
    {
        let ghost before = out@;
        out.push((rest % 256) as u8);
        proof {
            assert(le_bytes(rest as nat, (n - i) as nat) == seq![(rest % 256) as u8] + le_bytes(
                (rest / 256) as nat,
                (n - i - 1) as nat,
            ));
            assert(out@ + le_bytes((rest / 256) as nat, (n - i - 1) as nat) == before + le_bytes(
                rest as nat,
                (n - i) as nat,
            ));
        }
        rest = rest / 256;
        i = i + 1;
    }
    proof {
        assert(le_bytes(rest as nat, 0) == Seq::<u8>::empty());
        assert(out@ + Seq::<u8>::empty() == out@);
    }
    out
}

/// `le_bytes(v, n)` has `n` bytes.
pub proof fn lemma_le_bytes_len(v: nat, n: nat)
    ensures
        le_bytes(v, n).len() == n,
    decreases n,
{
    if n > 0 {
        lemma_le_bytes_len(v / 256, (n - 1) as nat);
    }
}

/// Reading back the `n` low bytes of `v` gives `v` modulo 256 to the `n`: for a `v` that fits
/// in `n` bytes, `v` itself.
pub proof fn lemma_le_value_of_bytes(v: nat, n: nat)
    ensures
        n == 0 ==> le_value(le_bytes(v, n)) == 0,
        n == 1 ==> le_value(le_bytes(v, n)) == v % 0x100,
        n == 2 ==> le_value(le_bytes(v, n)) == v % 0x1_0000,
        n == 4 ==> le_value(le_bytes(v, n)) == v % 0x1_0000_0000,
        n == 8 ==> le_value(le_bytes(v, n)) == v % 0x1_0000_0000_0000_0000,
{
    reveal_with_fuel(le_bytes, 9);
    reveal_with_fuel(le_value, 9);
    if n == 1 {
        lemma_le_step(v, 0);
    } else if n == 2 {
        lemma_le_steps2(v);
    } else if n == 4 {
        lemma_le_steps4(v);
    } else if n == 8 {
        lemma_le_steps4(v);
        lemma_le_steps4(v / 0x1_0000_0000);
        lemma_le_bytes_len(v, 8);
        lemma_le_bytes_len(v, 4);
        lemma_le_split(v, 4, 4);
        lemma_le_value_concat(le_bytes(v, 4), le_bytes(v / 0x1_0000_0000, 4));
        assert(v % 0x1_0000_0000 + 0x1_0000_0000 * ((v / 0x1_0000_0000) % 0x1_0000_0000) == v
            % 0x1_0000_0000_0000_0000) by (nonlinear_arith);
    }
}

/// One byte of a number and of its bytes.
proof fn lemma_le_step(v: nat, n: nat)
    ensures
        le_bytes(v, n + 1) == seq![(v % 256) as u8] + le_bytes(v / 256, n),
        le_value(le_bytes(v, n + 1)) == v % 256 + 256 * le_value(le_bytes(v / 256, n)),
{
    let s = le_bytes(v, n + 1);
    assert(s.subrange(1, s.len() as int) == le_bytes(v / 256, n));
    assert(s[0] == (v % 256) as u8);
}

/// Two bytes read back.
proof fn lemma_le_steps2(v: nat)
    ensures
        le_value(le_bytes(v, 2)) == v % 0x1_0000,
{
    lemma_le_step(v, 1);
    lemma_le_step(v / 256, 0);
    assert(le_value(le_bytes(v / 256 / 256, 0)) == 0);
    assert(v % 256 + 256 * ((v / 256) % 256) == v % 0x1_0000) by (nonlinear_arith);
}

/// Four bytes read back.
proof fn lemma_le_steps4(v: nat)
    ensures
        le_value(le_bytes(v, 4)) == v % 0x1_0000_0000,
{
    lemma_le_step(v, 3);
    lemma_le_step(v / 256, 2);
    lemma_le_steps2(v / 256 / 256);
    assert(v % 256 + 256 * ((v / 256) % 256 + 256 * ((v / 256 / 256) % 0x1_0000)) == v
        % 0x1_0000_0000) by (nonlinear_arith);
}

/// The low `a + b` bytes are the low `a` bytes followed by the next `b` bytes.
proof fn lemma_le_split(v: nat, a: nat, b: nat)
    ensures
        a == 4 ==> le_bytes(v, a + b) == le_bytes(v, a) + le_bytes(v / 0x1_0000_0000, b),
{
    if a == 4 {
        lemma_le_step(v, 3 + b);
        lemma_le_step(v / 256, 2 + b);
        lemma_le_step(v / 256 / 256, 1 + b);
        lemma_le_step(v / 256 / 256 / 256, b);
        lemma_le_step(v, 3);
        lemma_le_step(v / 256, 2);
        lemma_le_step(v / 256 / 256, 1);
        lemma_le_step(v / 256 / 256 / 256, 0);
        assert(v / 256 / 256 / 256 / 256 == v / 0x1_0000_0000) by (nonlinear_arith);
        assert(le_bytes(v / 256 / 256 / 256 / 256, 0) == Seq::<u8>::empty());
        assert(le_bytes(v, a + b) =~= le_bytes(v, a) + le_bytes(v / 0x1_0000_0000, b));
    }
}

/// The value of four bytes followed by more bytes.
proof fn lemma_le_value_concat(a: Seq<u8>, b: Seq<u8>)
    requires
        a.len() == 4,
    ensures
        le_value(a + b) == le_value(a) + 0x1_0000_0000 * le_value(b),
{
    reveal_with_fuel(le_value, 6);
    let s = a + b;
    let s1 = s.subrange(1, s.len() as int);
    let s2 = s1.subrange(1, s1.len() as int);
    let s3 = s2.subrange(1, s2.len() as int);
    let s4 = s3.subrange(1, s3.len() as int);
    assert(s4 == b);
    let a1 = a.subrange(1, a.len() as int);
    let a2 = a1.subrange(1, a1.len() as int);
    let a3 = a2.subrange(1, a2.len() as int);
    let a4 = a3.subrange(1, a3.len() as int);
    assert(a4.len() == 0);
    assert(le_value(s) == s[0] + 256 * (s1[0] + 256 * (s2[0] + 256 * (s3[0] + 256 * le_value(b)))));
    assert(le_value(a) == a[0] + 256 * (a1[0] + 256 * (a2[0] + 256 * (a3[0] + 256 * 0))));
    assert(s[0] == a[0] && s1[0] == a1[0] && s2[0] == a2[0] && s3[0] == a3[0]);
    assert(s[0] + 256 * (s1[0] + 256 * (s2[0] + 256 * (s3[0] + 256 * le_value(b)))) == a[0] + 256
        * (a1[0] + 256 * (a2[0] + 256 * (a3[0] + 256 * 0))) + 0x1_0000_0000 * le_value(b))
        by (nonlinear_arith)
        requires
            s[0] == a[0] && s1[0] == a1[0] && s2[0] == a2[0] && s3[0] == a3[0],
    ;
}

} // verus!
