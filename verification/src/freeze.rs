//! Binding of specialization constants and freezing of everything that depends on them:
//! each specialization constant becomes a constant, and each constant operation is folded.
use vstd::prelude::*;
use crate::constant::fold_arith;
use crate::constant::fold_fconvert;
use crate::constant::spec_fold_fconvert;
use crate::constant::OP_F_CONVERT;
use crate::constant::fold_compare;
use crate::constant::fold_unary;
use crate::constant::is_arith;
use crate::constant::is_compare;
use crate::constant::is_unary;
use crate::constant::spec_fold_arith;
use crate::constant::spec_fold_compare;
use crate::constant::spec_fold_unary;
use crate::constant::OP_I_ADD;
use crate::constant::OP_I_EQUAL;
use crate::constant::OP_I_MUL;
use crate::constant::OP_I_SUB;
use crate::constant::OP_NOT;
use crate::constant::OP_SELECT;
use crate::constant::OP_S_CONVERT;
use crate::constant::OP_S_DIV;
use crate::constant::OP_S_LESS_THAN_EQUAL;
use crate::constant::OP_S_MOD;
use crate::constant::OP_S_NEGATE;
use crate::constant::OP_S_REM;
use crate::constant::OP_U_CONVERT;
use crate::constant::OP_U_DIV;
use crate::constant::OP_U_MOD;
use crate::error::SpecError;
use crate::idmap::id_map_get;
use crate::idmap::id_map_insert;
use crate::idmap::id_map_new;
use crate::idmap::IdMap;
use crate::scalar::ScalarElem;
use crate::scalar::ScalarType;
use crate::spirv::all_wf;
use crate::spirv::inst_result;
use crate::spirv::insts_result;
use crate::spirv::Inst;
use crate::spirv::Instruction;
use crate::spirv::DECORATION_SPEC_ID;
use crate::spirv::OP_CONSTANT;
use crate::spirv::OP_CONSTANT_COMPOSITE;
use crate::spirv::OP_CONSTANT_FALSE;
use crate::spirv::OP_CONSTANT_TRUE;
use crate::spirv::OP_DECORATE;
use crate::spirv::OP_SPEC_CONSTANT;
use crate::spirv::OP_SPEC_CONSTANT_COMPOSITE;
use crate::spirv::OP_SPEC_CONSTANT_FALSE;
use crate::spirv::OP_SPEC_CONSTANT_OP;
use crate::spirv::OP_SPEC_CONSTANT_TRUE;
use crate::spirv::OP_TYPE_FLOAT;
use crate::spirv::OP_TYPE_INT;

verus! {

/// What the instructions read so far have defined: the scalar types, the scalar constants and
/// the boolean constants, each by its result id.
pub struct Tables {
    pub scalars: Map<u32, ScalarType>,
    pub values: Map<u32, ScalarElem>,
    pub bools: Map<u32, bool>,
}

/// What specialization constants are bound to: the specialization id that each decorated
/// result id has, the values by specialization id, and the threads of a group, which have
/// the id after the last value.
pub struct Bindings {
    pub ids: Map<u32, u32>,
    pub consts: Seq<ScalarElem>,
    pub threads: u32,
}

/// What folding a constant operation gives.
pub enum Folded {
    Scalar(ScalarElem),
    Bool(bool),
}

impl Tables {
    /// Nothing defined.
    pub open spec fn empty() -> Tables {
        Tables { scalars: Map::empty(), values: Map::empty(), bools: Map::empty() }
    }

    /// The tables with the scalar type `ty` defined as `id`.
    pub open spec fn with_scalar(self, id: u32, ty: ScalarType) -> Tables {
        Tables { scalars: self.scalars.insert(id, ty), values: self.values, bools: self.bools }
    }

    /// The tables with the scalar constant `v` defined as `id`.
    pub open spec fn with_value(self, id: u32, v: ScalarElem) -> Tables {
        Tables { scalars: self.scalars, values: self.values.insert(id, v), bools: self.bools }
    }

    /// The tables with the boolean constant `v` defined as `id`.
    pub open spec fn with_bool(self, id: u32, v: bool) -> Tables {
        Tables { scalars: self.scalars, values: self.values, bools: self.bools.insert(id, v) }
    }
}

/// Whether `i` decorates a result id with a specialization id.
pub open spec fn is_spec_id_decoration(i: Inst) -> bool {
    i.opcode == OP_DECORATE && i.words.len() == 3 && i.words[1] == DECORATION_SPEC_ID
}

/// The specialization id of each result id that `s` decorates with one; a later decoration
/// of an id replaces an earlier one.
pub open spec fn spec_ids(s: Seq<Inst>) -> Map<u32, u32>
    decreases s.len(),
{
    if s.len() == 0 {
        Map::empty()
    } else {
        let m = spec_ids(s.drop_last());
        let i = s.last();
        if is_spec_id_decoration(i) {
            m.insert(i.words[0], i.words[2])
        } else {
            m
        }
    }
}

/// The value that the specialization id `n` is bound to, if it is bound.
pub open spec fn bound_value(cx: Bindings, n: u32) -> Option<ScalarElem> {
    if n < cx.consts.len() {
        Some(cx.consts[n as int])
    } else if n == cx.consts.len() {
        Some(ScalarElem::U32(cx.threads))
    } else {
        None
    }
}

/// The literal words of a constant with the value `e`: one word with the bit pattern in its
/// low bytes, or the low and the high word of a pattern of eight bytes.
pub open spec fn value_words(e: ScalarElem) -> Seq<u32> {
    if e.spec_scalar_type().spec_size() == 8 {
        seq![(e.bits() % 0x1_0000_0000) as u32, (e.bits() / 0x1_0000_0000) as u32]
    } else {
        seq![e.bits() as u32]
    }
}

/// The word `w` with its `size` low bytes cleared, for a `size` of at most four.
pub open spec fn high_bytes(w: u32, size: nat) -> int {
    if size == 1 {
        w - w % 0x100
    } else if size == 2 {
        w - w % 0x1_0000
    } else {
        0
    }
}

/// The literal `lit` with the bytes of `e` put in place of its low bytes. The literal must
/// have the width of `e`: two words for eight bytes, else one.
pub open spec fn bind_literal(lit: Seq<u32>, e: ScalarElem) -> Result<Seq<u32>, SpecError> {
    let ty = e.spec_scalar_type();
    if ty.spec_size() == 8 {
        if lit.len() == 2 {
            Ok(value_words(e))
        } else {
            Err(SpecError::WidthMismatch)
        }
    } else if lit.len() == 1 {
        Ok(seq![(high_bytes(lit[0], ty.spec_size()) + e.bits()) as u32])
    } else {
        Err(SpecError::WidthMismatch)
    }
}

/// The specialization constant `i` with the value it is bound to in place of its default; `i`
/// itself where its result id has no specialization id or the id is not bound.
pub open spec fn bind_inst(cx: Bindings, i: Inst) -> Result<Inst, SpecError> {
    if i.words.len() >= 3 && cx.ids.contains_key(i.words[1]) {
        match bound_value(cx, cx.ids[i.words[1]]) {
            Some(e) => match bind_literal(i.words.subrange(2, i.words.len() as int), e) {
                Ok(lit) => Ok(Inst { opcode: i.opcode, words: i.words.subrange(0, 2) + lit }),
                Err(e) => Err(e),
            },
            None => Ok(i),
        }
    } else {
        Ok(i)
    }
}

/// The value of type `ty` that the literal `lit` holds.
pub open spec fn literal_value(ty: ScalarType, lit: Seq<u32>) -> Result<ScalarElem, SpecError> {
    if ty.spec_size() == 8 {
        if lit.len() >= 2 {
            Ok(ScalarElem::with_bits(ty, lit[0] + 0x1_0000_0000 * lit[1]))
        } else {
            Err(SpecError::Malformed)
        }
    } else if lit.len() >= 1 {
        Ok(ScalarElem::with_bits(ty, lit[0] as int % ty.patterns()))
    } else {
        Err(SpecError::Malformed)
    }
}

/// The integer type that the words of an `OpTypeInt` declare, if the runtime has it.
pub open spec fn int_type(words: Seq<u32>) -> Option<ScalarType> {
    if words.len() < 3 {
        None
    } else {
        let signed = words[2] == 1;
        if words[1] == 8 {
            Some(if signed { ScalarType::I8 } else { ScalarType::U8 })
        } else if words[1] == 16 {
            Some(if signed { ScalarType::I16 } else { ScalarType::U16 })
        } else if words[1] == 32 {
            Some(if signed { ScalarType::I32 } else { ScalarType::U32 })
        } else if words[1] == 64 {
            Some(if signed { ScalarType::I64 } else { ScalarType::U64 })
        } else {
            None
        }
    }
}

/// The float type that the words of an `OpTypeFloat` declare, if the runtime has it.
pub open spec fn float_type(words: Seq<u32>) -> Option<ScalarType> {
    if words.len() < 2 {
        None
    } else if words[1] == 16 {
        Some(ScalarType::F16)
    } else if words[1] == 32 {
        Some(ScalarType::F32)
    } else if words[1] == 64 {
        Some(ScalarType::F64)
    } else {
        None
    }
}

/// The scalar of a folded operation.
pub open spec fn folded_scalar(r: Result<ScalarElem, SpecError>) -> Result<Folded, SpecError> {
    match r {
        Ok(e) => Ok(Folded::Scalar(e)),
        Err(e) => Err(e),
    }
}

/// The boolean of a folded operation.
pub open spec fn folded_bool(r: Result<bool, SpecError>) -> Result<Folded, SpecError> {
    match r {
        Ok(b) => Ok(Folded::Bool(b)),
        Err(e) => Err(e),
    }
}

/// What the constant operation `op` gives on the operands `args`, with the result type
/// `ty_id`, over what `t` has defined.
///
/// Unary and binary integer operations, conversions between float types, comparisons and
/// `OpSelect` are folded; any other operation is refused by its opcode.
pub open spec fn fold_op(t: Tables, ty_id: u32, op: u32, args: Seq<u32>) -> Result<
    Folded,
    SpecError,
> {
    if is_unary(op) {
        if args.len() < 1 {
            Err(SpecError::Malformed)
        } else if !t.scalars.contains_key(ty_id) || !t.values.contains_key(args[0]) {
            Err(SpecError::UnknownId)
        } else {
            folded_scalar(spec_fold_unary(op, t.values[args[0]], t.scalars[ty_id]))
        }
    } else if op == OP_F_CONVERT {
        if args.len() < 1 {
            Err(SpecError::Malformed)
        } else if !t.scalars.contains_key(ty_id) || !t.values.contains_key(args[0]) {
            Err(SpecError::UnknownId)
        } else {
            folded_scalar(spec_fold_fconvert(t.values[args[0]], t.scalars[ty_id]))
        }
    } else if is_arith(op) {
        if args.len() < 2 {
            Err(SpecError::Malformed)
        } else if !t.scalars.contains_key(ty_id) || !t.values.contains_key(args[0])
            || !t.values.contains_key(args[1]) {
            Err(SpecError::UnknownId)
        } else {
            folded_scalar(
                spec_fold_arith(op, t.values[args[0]], t.values[args[1]], t.scalars[ty_id]),
            )
        }
    } else if is_compare(op) {
        if args.len() < 2 {
            Err(SpecError::Malformed)
        } else if !t.values.contains_key(args[0]) || !t.values.contains_key(args[1]) {
            Err(SpecError::UnknownId)
        } else {
            folded_bool(spec_fold_compare(op, t.values[args[0]], t.values[args[1]]))
        }
    } else if op == OP_SELECT {
        if args.len() < 3 {
            Err(SpecError::Malformed)
        } else if !t.bools.contains_key(args[0]) {
            Err(SpecError::UnknownId)
        } else {
            let pick = if t.bools[args[0]] { args[1] } else { args[2] };
            if t.scalars.contains_key(ty_id) {
                if t.values.contains_key(pick) {
                    Ok(Folded::Scalar(t.values[pick]))
                } else {
                    Err(SpecError::UnknownId)
                }
            } else if t.bools.contains_key(pick) {
                Ok(Folded::Bool(t.bools[pick]))
            } else {
                Err(SpecError::UnknownId)
            }
        }
    } else {
        Err(SpecError::Unsupported(op))
    }
}

/// Freezing of `OpConstant` and `OpSpecConstant`: a specialization constant is bound first;
/// the value is recorded and the instruction becomes an `OpConstant`.
pub open spec fn freeze_constant(t: Tables, cx: Bindings, i: Inst) -> Result<
    (Tables, Inst),
    SpecError,
> {
    if i.words.len() < 3 {
        Err(SpecError::Malformed)
    } else if !t.scalars.contains_key(i.words[0]) {
        Err(SpecError::UnknownId)
    } else {
        match (if i.opcode == OP_SPEC_CONSTANT { bind_inst(cx, i) } else { Ok(i) }) {
            Err(e) => Err(e),
            Ok(b) => match literal_value(
                t.scalars[i.words[0]],
                b.words.subrange(2, b.words.len() as int),
            ) {
                Err(e) => Err(e),
                Ok(v) => Ok(
                    (t.with_value(i.words[1], v), Inst { opcode: OP_CONSTANT, words: b.words }),
                ),
            },
        }
    }
}

/// Freezing of `OpSpecConstantOp`: the operation is folded, the result recorded, and the
/// instruction becomes the constant that holds it.
pub open spec fn freeze_op(t: Tables, i: Inst) -> Result<(Tables, Inst), SpecError> {
    if i.words.len() < 3 {
        Err(SpecError::Malformed)
    } else {
        match fold_op(t, i.words[0], i.words[2], i.words.subrange(3, i.words.len() as int)) {
            Err(e) => Err(e),
            Ok(Folded::Scalar(e)) => Ok(
                (
                    t.with_value(i.words[1], e),
                    Inst { opcode: OP_CONSTANT, words: seq![i.words[0], i.words[1]] + value_words(e) },
                ),
            ),
            Ok(Folded::Bool(b)) => Ok(
                (
                    t.with_bool(i.words[1], b),
                    Inst {
                        opcode: if b { OP_CONSTANT_TRUE } else { OP_CONSTANT_FALSE },
                        words: seq![i.words[0], i.words[1]],
                    },
                ),
            ),
        }
    }
}

/// Whether `op` is one of the four opcodes of a boolean constant.
pub open spec fn is_bool_constant(op: u16) -> bool {
    op == OP_CONSTANT_TRUE || op == OP_CONSTANT_FALSE || op == OP_SPEC_CONSTANT_TRUE || op
        == OP_SPEC_CONSTANT_FALSE
}

/// One step of freezing: what `t` becomes by the instruction `i`, and what `i` becomes.
///
/// A scalar type is recorded. A constant is recorded, and a specialization constant becomes
/// the constant of the same kind, with the value it is bound to. A constant operation becomes
/// the constant it folds to. Any other instruction stays as it is.
pub open spec fn freeze_inst(t: Tables, cx: Bindings, i: Inst) -> Result<(Tables, Inst), SpecError> {
    if i.opcode == OP_TYPE_INT {
        match int_type(i.words) {
            Some(ty) => Ok((t.with_scalar(i.words[0], ty), i)),
            None => Ok((t, i)),
        }
    } else if i.opcode == OP_TYPE_FLOAT {
        match float_type(i.words) {
            Some(ty) => Ok((t.with_scalar(i.words[0], ty), i)),
            None => Ok((t, i)),
        }
    } else if is_bool_constant(i.opcode) {
        if i.words.len() < 2 {
            Err(SpecError::Malformed)
        } else {
            let v = i.opcode == OP_CONSTANT_TRUE || i.opcode == OP_SPEC_CONSTANT_TRUE;
            Ok(
                (
                    t.with_bool(i.words[1], v),
                    Inst {
                        opcode: if v { OP_CONSTANT_TRUE } else { OP_CONSTANT_FALSE },
                        words: i.words,
                    },
                ),
            )
        }
    } else if i.opcode == OP_CONSTANT || i.opcode == OP_SPEC_CONSTANT {
        freeze_constant(t, cx, i)
    } else if i.opcode == OP_SPEC_CONSTANT_COMPOSITE {
        Ok((t, Inst { opcode: OP_CONSTANT_COMPOSITE, words: i.words }))
    } else if i.opcode == OP_SPEC_CONSTANT_OP {
        freeze_op(t, i)
    } else {
        Ok((t, i))
    }
}

/// Freezing of the first `n` instructions of `s`, in order: the tables after them and what
/// they became, or the error of the first instruction that cannot be frozen.
pub open spec fn freeze_prefix(cx: Bindings, s: Seq<Inst>, n: nat) -> Result<
    (Tables, Seq<Inst>),
    SpecError,
>
    decreases n,
{
    if n == 0 {
        Ok((Tables::empty(), Seq::empty()))
    } else {
        match freeze_prefix(cx, s, (n - 1) as nat) {
            Err(e) => Err(e),
            Ok((t, out)) => match freeze_inst(t, cx, s[n - 1]) {
                Err(e) => Err(e),
                Ok((t2, i2)) => Ok((t2, out.push(i2))),
            },
        }
    }
}

/// What the instructions `s` become by freezing.
pub open spec fn freeze_all(cx: Bindings, s: Seq<Inst>) -> Result<Seq<Inst>, SpecError> {
    match freeze_prefix(cx, s, s.len()) {
        Ok((_, out)) => Ok(out),
        Err(e) => Err(e),
    }
}

/// An error of a prefix is the error of every longer prefix.
pub proof fn lemma_freeze_error_stays(cx: Bindings, s: Seq<Inst>, n: nat, m: nat)
    requires
        n <= m,
        freeze_prefix(cx, s, n) is Err,
    ensures
        freeze_prefix(cx, s, m) == freeze_prefix(cx, s, n),
    decreases m,
{
    if n < m {
        lemma_freeze_error_stays(cx, s, n, (m - 1) as nat);
    }
}

/// The exec form of `Tables`.
pub struct IdTables {
    pub scalars: IdMap<ScalarType>,
    pub values: IdMap<ScalarElem>,
    pub bools: IdMap<bool>,
}

impl View for IdTables {
    type V = Tables;

    open spec fn view(&self) -> Tables {
        Tables { scalars: self.scalars@, values: self.values@, bools: self.bools@ }
    }
}

impl IdTables {
    /// Tables with nothing defined.
    pub fn new() -> (r: IdTables)
        ensures
            r@ == Tables::empty(),
    {
        let r = IdTables { scalars: id_map_new(), values: id_map_new(), bools: id_map_new() };
        proof {
            assert(r.scalars@ =~= Map::empty());
            assert(r.values@ =~= Map::empty());
            assert(r.bools@ =~= Map::empty());
        }
        r
    }
}

/// The specialization id of each result id that `insts` decorate with one.
pub fn collect_spec_ids(insts: &Vec<Instruction>) -> (r: IdMap<u32>)
    ensures
        r@ == spec_ids(insts.deep_view()),
{
    let ghost all = insts.deep_view();
    let mut ids: IdMap<u32> = id_map_new();
    let mut i: usize = 0;
    proof {
        assert(all.take(0).len() == 0);
        assert(ids@ =~= Map::empty());
    }
    while i < insts.len()
        invariant
            i <= insts.len(),
            all == insts.deep_view(),
            ids@ == spec_ids(all.take(i as int)),
        decreases insts.len() - i,
    {
        let inst = &insts[i];
        proof {
            let t = all.take(i as int + 1);
            assert(t.drop_last() == all.take(i as int));
            assert(t.last() == inst@);
        }
        if inst.opcode == OP_DECORATE && inst.words.len() == 3 && inst.words[1]
            == DECORATION_SPEC_ID {
            id_map_insert(&mut ids, inst.words[0], inst.words[2]);
        }
        i = i + 1;
    }
    proof {
        assert(all.take(insts.len() as int) == all);
    }
    ids
}

/// The literal words of a constant with the value `e`.
pub fn words_of_value(e: ScalarElem) -> (r: Vec<u32>)
    ensures
        r@ == value_words(e),
        r@.len() <= 2,
{
    let bits: u64 = e.to_bits();
    let mut out: Vec<u32> = Vec::new();
    if e.scalar_type().size() == 8 {
        out.push((bits % 0x1_0000_0000) as u32);
        out.push((bits / 0x1_0000_0000) as u32);
    } else {
        out.push(bits as u32);
    }
    proof {
        assert(out@ =~= value_words(e));
    }
    out
}

/// The value of type `ty` that the words of `inst` from the third on hold.
pub fn value_of_literal(ty: ScalarType, inst: &Instruction) -> (r: Result<ScalarElem, SpecError>)
    requires
        inst.words@.len() >= 3,
    ensures
        r == literal_value(ty, inst.words@.subrange(2, inst.words@.len() as int)),
{
    let ghost lit = inst.words@.subrange(2, inst.words@.len() as int);
    assert(lit[0] == inst.words@[2]);
    if ty.size() == 8 {
        if inst.words.len() >= 4 {
            assert(lit[1] == inst.words@[3]);
            let bits: u64 = inst.words[2] as u64 + 0x1_0000_0000 * (inst.words[3] as u64);
            Ok(ScalarElem::from_bits(ty, bits))
        } else {
            Err(SpecError::Malformed)
        }
    } else {
        Ok(ScalarElem::from_bits(ty, inst.words[2] as u64))
    }
}

/// The specialization constant `inst` with the value it is bound to.
pub fn bind_instruction(ids: &IdMap<u32>, consts: &[ScalarElem], threads: u32, inst: &Instruction) -> (r:
    Result<Instruction, SpecError>)
    ensures
        inst_result(r) == bind_inst(Bindings { ids: ids@, consts: consts@, threads }, inst@),
        inst@.wf() && r is Ok ==> r->Ok_0@.wf(),
{
    let ghost cx = Bindings { ids: ids@, consts: consts@, threads };
    if inst.words.len() < 3 {
        return Ok(inst.duplicate());
    }
    let n: u32 = match id_map_get(ids, inst.words[1]) {
        Some(n) => n,
        None => { return Ok(inst.duplicate()); },
    };
    let e: ScalarElem = if (n as usize) < consts.len() {
        consts[n as usize]
    } else if n as usize == consts.len() {
        ScalarElem::U32(threads)
    } else {
        return Ok(inst.duplicate());
    };
    assert(bound_value(cx, n) == Some(e));
    let ghost lit = inst.words@.subrange(2, inst.words@.len() as int);
    let size: usize = e.scalar_type().size();
    let mut words: Vec<u32> = Vec::new();
    words.push(inst.words[0]);
    words.push(inst.words[1]);
    if size == 8 {
        if inst.words.len() != 4 {
            return Err(SpecError::WidthMismatch);
        }
        let v = words_of_value(e);
        words.push(v[0]);
        words.push(v[1]);
        proof {
            assert(words@ =~= inst.words@.subrange(0, 2) + value_words(e));
        }
    } else {
        if inst.words.len() != 3 {
            return Err(SpecError::WidthMismatch);
        }
        let old: u64 = inst.words[2] as u64;
        let bits: u64 = e.to_bits();
        let new: u64 = if size == 1 {
            old - old % 0x100 + bits
        } else if size == 2 {
            old - old % 0x1_0000 + bits
        } else {
            bits
        };
        assert(lit[0] == inst.words@[2]);
        assert(new == high_bytes(inst.words@[2], size as nat) + e.bits());
        words.push(new as u32);
        proof {
            assert(words@ =~= inst.words@.subrange(0, 2) + seq![new as u32]);
        }
    }
    Ok(Instruction { opcode: inst.opcode, words })
}

/// An instruction like `inst` with another opcode.
pub fn with_opcode(inst: &Instruction, opcode: u16) -> (r: Instruction)
    ensures
        r@ == (Inst { opcode, words: inst@.words }),
{
    let mut r = inst.duplicate();
    r.opcode = opcode;
    r
}

/// Folds the constant operation `op`.
pub fn fold_operation(tables: &IdTables, ty_id: u32, op: u32, inst: &Instruction) -> (r: Result<
    Folded,
    SpecError,
>)
    requires
        inst.words@.len() >= 3,
    ensures
        r == fold_op(tables@, ty_id, op, inst.words@.subrange(3, inst.words@.len() as int)),
{
    let ghost args = inst.words@.subrange(3, inst.words@.len() as int);
    let n: usize = inst.words.len() - 3;
    if op == OP_U_CONVERT || op == OP_S_CONVERT || op == OP_S_NEGATE || op == OP_NOT {
        if n < 1 {
            return Err(SpecError::Malformed);
        }
        assert(args[0] == inst.words@[3]);
        let ty = id_map_get(&tables.scalars, ty_id);
        let x = id_map_get(&tables.values, inst.words[3]);
        match (ty, x) {
            (Some(ty), Some(x)) => match fold_unary(op, x, ty) {
                Ok(e) => Ok(Folded::Scalar(e)),
                Err(e) => Err(e),
            },
            _ => Err(SpecError::UnknownId),
        }
    } else if op == OP_F_CONVERT {
        if n < 1 {
            return Err(SpecError::Malformed);
        }
        assert(args[0] == inst.words@[3]);
        let ty = id_map_get(&tables.scalars, ty_id);
        let x = id_map_get(&tables.values, inst.words[3]);
        match (ty, x) {
            (Some(ty), Some(x)) => match fold_fconvert(x, ty) {
                Ok(e) => Ok(Folded::Scalar(e)),
                Err(e) => Err(e),
            },
            _ => Err(SpecError::UnknownId),
        }
    } else if op == OP_I_ADD || op == OP_I_SUB || op == OP_I_MUL || op == OP_U_DIV || op == OP_S_DIV
        || op == OP_U_MOD || op == OP_S_REM || op == OP_S_MOD {
        if n < 2 {
            return Err(SpecError::Malformed);
        }
        assert(args[0] == inst.words@[3] && args[1] == inst.words@[4]);
        let ty = id_map_get(&tables.scalars, ty_id);
        let a = id_map_get(&tables.values, inst.words[3]);
        let b = id_map_get(&tables.values, inst.words[4]);
        match (ty, a, b) {
            (Some(ty), Some(a), Some(b)) => match fold_arith(op, a, b, ty) {
                Ok(e) => Ok(Folded::Scalar(e)),
                Err(e) => Err(e),
            },
            _ => Err(SpecError::UnknownId),
        }
    } else if OP_I_EQUAL <= op && op <= OP_S_LESS_THAN_EQUAL {
        if n < 2 {
            return Err(SpecError::Malformed);
        }
        assert(args[0] == inst.words@[3] && args[1] == inst.words@[4]);
        let a = id_map_get(&tables.values, inst.words[3]);
        let b = id_map_get(&tables.values, inst.words[4]);
        match (a, b) {
            (Some(a), Some(b)) => match fold_compare(op, a, b) {
                Ok(v) => Ok(Folded::Bool(v)),
                Err(e) => Err(e),
            },
            _ => Err(SpecError::UnknownId),
        }
    } else if op == OP_SELECT {
        if n < 3 {
            return Err(SpecError::Malformed);
        }
        assert(args[0] == inst.words@[3] && args[1] == inst.words@[4] && args[2] == inst.words@[5]);
        let condition: bool = match id_map_get(&tables.bools, inst.words[3]) {
            Some(c) => c,
            None => { return Err(SpecError::UnknownId); },
        };
        let pick: u32 = if condition { inst.words[4] } else { inst.words[5] };
        if id_map_get(&tables.scalars, ty_id).is_some() {
            match id_map_get(&tables.values, pick) {
                Some(v) => Ok(Folded::Scalar(v)),
                None => Err(SpecError::UnknownId),
            }
        } else {
            match id_map_get(&tables.bools, pick) {
                Some(v) => Ok(Folded::Bool(v)),
                None => Err(SpecError::UnknownId),
            }
        }
    } else {
        Err(SpecError::Unsupported(op))
    }
}

/// One step of freezing: records what `inst` defines and gives what it becomes.
pub fn freeze_instruction(
    tables: &mut IdTables,
    ids: &IdMap<u32>,
    consts: &[ScalarElem],
    threads: u32,
    inst: &Instruction,
) -> (r: Result<Instruction, SpecError>)
    ensures
        match r {
            Ok(i2) => freeze_inst(
                old(tables)@,
                Bindings { ids: ids@, consts: consts@, threads },
                inst@,
            ) == Ok::<(Tables, Inst), SpecError>((final(tables)@, i2@)),
            Err(e) => freeze_inst(
                old(tables)@,
                Bindings { ids: ids@, consts: consts@, threads },
                inst@,
            ) == Err::<(Tables, Inst), SpecError>(e),
        },
        inst@.wf() && r is Ok ==> r->Ok_0@.wf(),
{
    let ghost cx = Bindings { ids: ids@, consts: consts@, threads };
    let ghost t = tables@;
    let op: u16 = inst.opcode;
    let n: usize = inst.words.len();
    if op == OP_TYPE_INT {
        if n >= 3 {
            let signed: bool = inst.words[2] == 1;
            let width: u32 = inst.words[1];
            let ty: Option<ScalarType> = if width == 8 {
                Some(if signed { ScalarType::I8 } else { ScalarType::U8 })
            } else if width == 16 {
                Some(if signed { ScalarType::I16 } else { ScalarType::U16 })
            } else if width == 32 {
                Some(if signed { ScalarType::I32 } else { ScalarType::U32 })
            } else if width == 64 {
                Some(if signed { ScalarType::I64 } else { ScalarType::U64 })
            } else {
                None
            };
            if let Some(ty) = ty {
                id_map_insert(&mut tables.scalars, inst.words[0], ty);
            }
        }
        Ok(inst.duplicate())
    } else if op == OP_TYPE_FLOAT {
        if n >= 2 {
            let width: u32 = inst.words[1];
            let ty: Option<ScalarType> = if width == 16 {
                Some(ScalarType::F16)
            } else if width == 32 {
                Some(ScalarType::F32)
            } else if width == 64 {
                Some(ScalarType::F64)
            } else {
                None
            };
            if let Some(ty) = ty {
                id_map_insert(&mut tables.scalars, inst.words[0], ty);
            }
        }
        Ok(inst.duplicate())
    } else if op == OP_CONSTANT_TRUE || op == OP_CONSTANT_FALSE || op == OP_SPEC_CONSTANT_TRUE || op
        == OP_SPEC_CONSTANT_FALSE {
        if n < 2 {
            return Err(SpecError::Malformed);
        }
        let v: bool = op == OP_CONSTANT_TRUE || op == OP_SPEC_CONSTANT_TRUE;
        id_map_insert(&mut tables.bools, inst.words[1], v);
        Ok(with_opcode(inst, if v { OP_CONSTANT_TRUE } else { OP_CONSTANT_FALSE }))
    } else if op == OP_CONSTANT || op == OP_SPEC_CONSTANT {
        if n < 3 {
            return Err(SpecError::Malformed);
        }
        let ty: ScalarType = match id_map_get(&tables.scalars, inst.words[0]) {
            Some(ty) => ty,
            None => { return Err(SpecError::UnknownId); },
        };
        let bound: Instruction = if op == OP_SPEC_CONSTANT {
            match bind_instruction(ids, consts, threads, inst) {
                Ok(b) => b,
                Err(e) => { return Err(e); },
            }
        } else {
            inst.duplicate()
        };
        assert(bound@.words.len() >= 3);
        let v: ScalarElem = match value_of_literal(ty, &bound) {
            Ok(v) => v,
            Err(e) => { return Err(e); },
        };
        id_map_insert(&mut tables.values, inst.words[1], v);
        Ok(with_opcode(&bound, OP_CONSTANT))
    } else if op == OP_SPEC_CONSTANT_COMPOSITE {
        Ok(with_opcode(inst, OP_CONSTANT_COMPOSITE))
    } else if op == OP_SPEC_CONSTANT_OP {
        if n < 3 {
            return Err(SpecError::Malformed);
        }
        let folded = match fold_operation(tables, inst.words[0], inst.words[2], inst) {
            Ok(f) => f,
            Err(e) => { return Err(e); },
        };
        let mut words: Vec<u32> = Vec::new();
        words.push(inst.words[0]);
        words.push(inst.words[1]);
        match folded {
            Folded::Scalar(e) => {
                let v = words_of_value(e);
                crate::spirv::append_words(&mut words, &v);
                id_map_insert(&mut tables.values, inst.words[1], e);
                proof {
                    assert(words@ =~= seq![inst.words@[0], inst.words@[1]] + value_words(e));
                }
                Ok(Instruction { opcode: OP_CONSTANT, words })
            },
            Folded::Bool(b) => {
                id_map_insert(&mut tables.bools, inst.words[1], b);
                proof {
                    assert(words@ =~= seq![inst.words@[0], inst.words@[1]]);
                }
                Ok(Instruction { opcode: if b { OP_CONSTANT_TRUE } else { OP_CONSTANT_FALSE }, words })
            },
        }
    } else {
        Ok(inst.duplicate())
    }
}

/// Freezes `insts` in order: binds the specialization constants and folds the constant
/// operations. Stops at the first instruction that cannot be frozen, with its error.
pub fn freeze_instructions(
    insts: &Vec<Instruction>,
    ids: &IdMap<u32>,
    consts: &[ScalarElem],
    threads: u32,
) -> (r: Result<Vec<Instruction>, SpecError>)
    ensures
        insts_result(r) == freeze_all(
            Bindings { ids: ids@, consts: consts@, threads },
            insts.deep_view(),
        ),
        all_wf(insts.deep_view()) && r is Ok ==> all_wf(r->Ok_0.deep_view()),
{
    let ghost cx = Bindings { ids: ids@, consts: consts@, threads };
    let ghost all = insts.deep_view();
    let mut tables = IdTables::new();
    let mut out: Vec<Instruction> = Vec::new();
    let mut i: usize = 0;
    proof {
        assert(out.deep_view() =~= Seq::empty());
    }
    while i < insts.len()
        invariant
            i <= insts.len(),
            all == insts.deep_view(),
            cx == (Bindings { ids: ids@, consts: consts@, threads }),
            freeze_prefix(cx, all, i as nat) == Ok::<(Tables, Seq<Inst>), SpecError>(
                (tables@, out.deep_view()),
            ),
            all_wf(all) ==> all_wf(out.deep_view()),
        decreases insts.len() - i,
    {
        let ghost before = out.deep_view();
        assert(all[i as int] == insts@[i as int]@);
        match freeze_instruction(&mut tables, ids, consts, threads, &insts[i]) {
            Ok(inst) => {
                out.push(inst);
                proof {
                    assert(out.deep_view() =~= before.push(inst@));
                    if all_wf(all) {
                        assert(all[i as int].wf());
                        assert forall|j: int| 0 <= j < out.deep_view().len() implies (
                        #[trigger] out.deep_view()[j]).wf() by {
                            if j < before.len() {
                                assert(out.deep_view()[j] == before[j]);
                            }
                        }
                    }
                }
            },
            Err(e) => {
                proof {
                    assert(freeze_prefix(cx, all, (i + 1) as nat) is Err);
                    lemma_freeze_error_stays(cx, all, (i + 1) as nat, all.len());
                }
                return Err(e);
            },
        }
        i = i + 1;
    }
    Ok(out)
}

} // verus!
