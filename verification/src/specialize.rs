//! Specialization of a module: binding and freezing of its specialization constants, gating
//! of its debug-printf instructions, and ordering of its push-constant pointers.
use vstd::prelude::*;
use vstd::string::StringSliceAdditionalSpecFns;
use crate::error::SpecError;
use crate::freeze::collect_spec_ids;
use crate::freeze::freeze_all;
use crate::freeze::freeze_instructions;
use crate::freeze::is_spec_id_decoration;
use crate::freeze::spec_ids;
use crate::freeze::Bindings;
use crate::idmap::id_set_contains;
use crate::idmap::id_set_insert;
use crate::idmap::id_set_new;
use crate::idmap::IdSet;
use crate::scalar::ScalarElem;
use crate::spirv::all_wf;
use crate::spirv::append_words;
use crate::spirv::insts_result;
use crate::spirv::loaded_parts;
use crate::spirv::Inst;
use crate::spirv::Instruction;
use crate::spirv::Module;
use crate::spirv::ModuleView;
use crate::spirv::DECORATION_SPEC_ID;
use crate::spirv::OP_DECORATE;
use crate::spirv::OP_EXTENSION;
use crate::spirv::OP_EXT_INST;
use crate::spirv::OP_EXT_INST_IMPORT;
use crate::spirv::OP_LINE;
use crate::spirv::OP_NO_LINE;
use crate::spirv::OP_TYPE_POINTER;
use crate::spirv::OP_TYPE_STRUCT;
use crate::spirv::STORAGE_CLASS_PUSH_CONSTANT;

verus! {

/// The extension that non-semantic instruction sets need.
pub const NON_SEMANTIC_INFO: &'static str = "SPV_KHR_non_semantic_info";

/// What the name of a debug-printf instruction set starts with.
pub const DEBUG_PRINTF_PREFIX: &'static str = "NonSemantic.DebugPrintf";

/// Byte `j` of the word `w`, the least significant first.
pub open spec fn word_byte(w: u32, j: int) -> int {
    if j == 0 {
        w as int % 0x100
    } else if j == 1 {
        w as int / 0x100 % 0x100
    } else if j == 2 {
        w as int / 0x1_0000 % 0x100
    } else {
        w as int / 0x100_0000
    }
}

/// Whether the bytes packed in `words`, four to a word, begin with `lit`.
pub open spec fn packed_starts_with(words: Seq<u32>, lit: Seq<u8>) -> bool {
    &&& lit.len() <= 4 * words.len()
    &&& forall|k: int| 0 <= k < lit.len() ==> word_byte(words[k / 4], k % 4) == #[trigger] lit[k]
}

/// Whether the bytes packed in `words` are `lit` and then a zero byte: for a `lit` without a
/// zero byte, whether the string that `words` hold is `lit`.
pub open spec fn packed_equals(words: Seq<u32>, lit: Seq<u8>) -> bool {
    &&& packed_starts_with(words, lit)
    &&& lit.len() < 4 * words.len()
    &&& word_byte(words[lit.len() as int / 4], lit.len() as int % 4) == 0
}

/// Whether `i` declares the extension for non-semantic instruction sets.
pub open spec fn is_non_semantic_extension(i: Inst) -> bool {
    i.opcode == OP_EXTENSION && packed_equals(i.words, NON_SEMANTIC_INFO.spec_bytes())
}

/// Whether `i` imports a debug-printf instruction set.
pub open spec fn is_debug_printf_import(i: Inst) -> bool {
    i.opcode == OP_EXT_INST_IMPORT && i.words.len() >= 1 && packed_starts_with(
        i.words.subrange(1, i.words.len() as int),
        DEBUG_PRINTF_PREFIX.spec_bytes(),
    )
}

/// The result ids of the debug-printf instruction sets that `s` imports.
pub open spec fn debug_printf_sets(s: Seq<Inst>) -> Set<u32>
    decreases s.len(),
{
    if s.len() == 0 {
        Set::empty()
    } else if is_debug_printf_import(s.last()) {
        debug_printf_sets(s.drop_last()).insert(s.last().words[0])
    } else {
        debug_printf_sets(s.drop_last())
    }
}

/// The result ids of the struct types that `s` declares.
pub open spec fn struct_ids(s: Seq<Inst>) -> Set<u32>
    decreases s.len(),
{
    if s.len() == 0 {
        Set::empty()
    } else if s.last().opcode == OP_TYPE_STRUCT && s.last().words.len() >= 1 {
        struct_ids(s.drop_last()).insert(s.last().words[0])
    } else {
        struct_ids(s.drop_last())
    }
}

/// Whether `i` declares a pointer to push constants whose pointee is none of `structs`.
pub open spec fn is_bare_push_pointer(structs: Set<u32>, i: Inst) -> bool {
    &&& i.opcode == OP_TYPE_POINTER
    &&& i.words.len() == 3
    &&& i.words[1] == STORAGE_CLASS_PUSH_CONSTANT
    &&& !structs.contains(i.words[2])
}

/// Whether `i` is an instruction of a function's body that goes with debug printf: a call
/// into one of the instruction sets `sets`, or a source line.
pub open spec fn is_debug_instruction(sets: Set<u32>, i: Inst) -> bool {
    ||| i.opcode == OP_EXT_INST && i.words.len() >= 3 && sets.contains(i.words[2])
    ||| i.opcode == OP_LINE
    ||| i.opcode == OP_NO_LINE
}

/// A rule that says which instructions of a list stay.
pub enum RuleView {
    /// All but the non-semantic extension and the debug-printf imports.
    WithoutImports,
    /// All but the debug instructions for these instruction sets.
    WithoutDebug(Set<u32>),
    /// All but the decorations with a specialization id.
    WithoutSpecIds,
    /// All but the bare push-constant pointers, for these struct ids.
    WithoutBarePointers(Set<u32>),
    /// Only the bare push-constant pointers, for these struct ids.
    BarePointers(Set<u32>),
}

impl RuleView {
    /// Whether `i` stays.
    pub open spec fn keeps(self, i: Inst) -> bool {
        match self {
            RuleView::WithoutImports => !is_non_semantic_extension(i) && !is_debug_printf_import(i),
            RuleView::WithoutDebug(sets) => !is_debug_instruction(sets, i),
            RuleView::WithoutSpecIds => !is_spec_id_decoration(i),
            RuleView::WithoutBarePointers(structs) => !is_bare_push_pointer(structs, i),
            RuleView::BarePointers(structs) => is_bare_push_pointer(structs, i),
        }
    }

    /// The rule as a predicate.
    pub open spec fn pred(self) -> spec_fn(Inst) -> bool {
        |i: Inst| self.keeps(i)
    }
}

/// What is left of `s` under `rule`, in order.
pub open spec fn retained(s: Seq<Inst>, rule: RuleView) -> Seq<Inst> {
    s.filter(rule.pred())
}

/// The module without what goes with debug printf: the non-semantic extension, the
/// debug-printf imports, and in the functions the calls into them and the source lines.
pub open spec fn without_debug_printf(m: ModuleView) -> ModuleView {
    ModuleView {
        header: m.header,
        globals: retained(m.globals, RuleView::WithoutImports),
        functions: retained(m.functions, RuleView::WithoutDebug(debug_printf_sets(m.globals))),
    }
}

/// The instructions `s` with the bare push-constant pointers moved to the end, in their order.
pub open spec fn pointers_last(s: Seq<Inst>) -> Seq<Inst> {
    retained(s, RuleView::WithoutBarePointers(struct_ids(s))) + retained(
        s,
        RuleView::BarePointers(struct_ids(s)),
    )
}

/// What specializing the module `m` gives.
///
/// The specialization constants are bound to `consts` by their specialization ids, and the
/// one with the id after the last to `threads`; constants and constant operations are frozen;
/// the decorations with a specialization id go; unless `debug_printf` holds, what goes with
/// debug printf goes; the bare push-constant pointers move behind the other globals.
pub open spec fn specialized_module(
    m: ModuleView,
    threads: u32,
    consts: Seq<ScalarElem>,
    debug_printf: bool,
) -> Result<ModuleView, SpecError> {
    let cx = Bindings { ids: spec_ids(m.globals), consts, threads };
    match freeze_all(cx, m.globals) {
        Err(e) => Err(e),
        Ok(frozen) => {
            let plain = ModuleView {
                header: m.header,
                globals: retained(frozen, RuleView::WithoutSpecIds),
                functions: m.functions,
            };
            let gated = if debug_printf {
                plain
            } else {
                without_debug_printf(plain)
            };
            Ok(
                ModuleView {
                    header: gated.header,
                    globals: pointers_last(gated.globals),
                    functions: gated.functions,
                },
            )
        },
    }
}

/// What specializing a module from its binary form gives, as a binary form, given what the
/// loader made of the words.
pub open spec fn specialized(
    loaded: Option<(Seq<u32>, Seq<Seq<u32>>, Seq<Seq<u32>>)>,
    threads: u32,
    consts: Seq<ScalarElem>,
    debug_printf: bool,
) -> Result<Seq<u32>, SpecError> {
    match ModuleView::load(loaded) {
        None => Err(SpecError::InvalidModule),
        Some(m) => match specialized_module(m, threads, consts, debug_printf) {
            Ok(s) => Ok(s.assemble()),
            Err(e) => Err(e),
        },
    }
}

/// In `pointers_last(s)` every bare push-constant pointer stands behind every struct type,
/// and nothing is lost or added.
pub proof fn lemma_pointers_after_structs(s: Seq<Inst>, a: int, b: int)
    requires
        0 <= a < pointers_last(s).len(),
        0 <= b < pointers_last(s).len(),
        is_bare_push_pointer(struct_ids(s), pointers_last(s)[a]),
        pointers_last(s)[b].opcode == OP_TYPE_STRUCT,
    ensures
        b < a,
{
    let structs = struct_ids(s);
    let stay = RuleView::WithoutBarePointers(structs);
    let go = RuleView::BarePointers(structs);
    let front = s.filter(stay.pred());
    let back = s.filter(go.pred());
    if a < front.len() {
        s.lemma_filter_pred(stay.pred(), a);
        assert(stay.pred()(front[a]));
        assert(false);
    }
    if b >= front.len() {
        s.lemma_filter_pred(go.pred(), b - front.len());
        assert(go.pred()(back[b - front.len()]));
        assert(false);
    }
}

/// The exec form of a rule.
pub enum Rule<'a> {
    WithoutImports,
    WithoutDebug(&'a IdSet),
    WithoutSpecIds,
    WithoutBarePointers(&'a IdSet),
    BarePointers(&'a IdSet),
}

impl<'a> View for Rule<'a> {
    type V = RuleView;

    open spec fn view(&self) -> RuleView {
        match self {
            Rule::WithoutImports => RuleView::WithoutImports,
            Rule::WithoutDebug(m) => RuleView::WithoutDebug(m@),
            Rule::WithoutSpecIds => RuleView::WithoutSpecIds,
            Rule::WithoutBarePointers(m) => RuleView::WithoutBarePointers(m@),
            Rule::BarePointers(m) => RuleView::BarePointers(m@),
        }
    }
}

/// Byte `j` of the word `w`.
pub fn byte_of_word(w: u32, j: usize) -> (r: u8)
    requires
        j < 4,
    ensures
        r == word_byte(w, j as int),
{
    if j == 0 {
        (w % 0x100) as u8
    } else if j == 1 {
        (w / 0x100 % 0x100) as u8
    } else if j == 2 {
        (w / 0x1_0000 % 0x100) as u8
    } else {
        (w / 0x100_0000) as u8
    }
}

/// Whether the bytes packed in the words of `words` from `from` on begin with `lit`; with
/// `whole`, whether a zero byte follows there.
pub fn packed_match(words: &Vec<u32>, from: usize, lit: &[u8], whole: bool) -> (r: bool)
    requires
        from <= words.len(),
    ensures
        r == if whole {
            packed_equals(words@.subrange(from as int, words@.len() as int), lit@)
        } else {
            packed_starts_with(words@.subrange(from as int, words@.len() as int), lit@)
        },
{
    let ghost sub = words@.subrange(from as int, words@.len() as int);
    let n: usize = words.len() - from;
    let m: usize = lit.len();
    if !(m / 4 < n || (m / 4 == n && m % 4 == 0)) {
        return false;
    }
    let mut k: usize = 0;
    while k < m
        invariant
            k <= m,
            m == lit.len(),
            m <= 4 * n,
            n == words.len() - from,
            sub == words@.subrange(from as int, words@.len() as int),
            forall|j: int| 0 <= j < k ==> word_byte(sub[j / 4], j % 4) == #[trigger] lit@[j],
        decreases m - k,
    {
        assert(sub[k as int / 4] == words@[from + k / 4]);
        if byte_of_word(words[from + k / 4], k % 4) != lit[k] {
            assert(word_byte(sub[k as int / 4], k as int % 4) != lit@[k as int]);
            return false;
        }
        k = k + 1;
    }
    if whole {
        if m / 4 >= n {
            return false;
        }
        assert(sub[m as int / 4] == words@[from + m / 4]);
        byte_of_word(words[from + m / 4], m % 4) == 0
    } else {
        true
    }
}

/// Whether `inst` stays under `rule`.
pub fn keeps(rule: &Rule, inst: &Instruction) -> (r: bool)
    ensures
        r == rule@.keeps(inst@),
{
    match rule {
        Rule::WithoutImports => {
            if inst.opcode == OP_EXTENSION {
                assert(inst.words@.subrange(0, inst.words@.len() as int) == inst.words@);
                !packed_match(&inst.words, 0, NON_SEMANTIC_INFO.as_bytes(), true)
            } else if inst.opcode == OP_EXT_INST_IMPORT {
                !(inst.words.len() >= 1 && packed_match(
                    &inst.words,
                    1,
                    DEBUG_PRINTF_PREFIX.as_bytes(),
                    false,
                ))
            } else {
                true
            }
        },
        Rule::WithoutDebug(sets) => {
            if inst.opcode == OP_EXT_INST {
                !(inst.words.len() >= 3 && id_set_contains(sets, inst.words[2]))
            } else {
                inst.opcode != OP_LINE && inst.opcode != OP_NO_LINE
            }
        },
        Rule::WithoutSpecIds => !(inst.opcode == OP_DECORATE && inst.words.len() == 3
            && inst.words[1] == DECORATION_SPEC_ID),
        Rule::WithoutBarePointers(structs) => !is_bare(structs, inst),
        Rule::BarePointers(structs) => is_bare(structs, inst),
    }
}

/// Whether `inst` declares a pointer to push constants whose pointee is none of `structs`.
pub fn is_bare(structs: &IdSet, inst: &Instruction) -> (r: bool)
    ensures
        r == is_bare_push_pointer(structs@, inst@),
{
    inst.opcode == OP_TYPE_POINTER && inst.words.len() == 3 && inst.words[1]
        == STORAGE_CLASS_PUSH_CONSTANT && !id_set_contains(structs, inst.words[2])
}

/// The instructions of `insts` that stay under `rule`, in order.
pub fn retain(insts: &Vec<Instruction>, rule: &Rule) -> (r: Vec<Instruction>)
    ensures
        r.deep_view() == retained(insts.deep_view(), rule@),
        all_wf(insts.deep_view()) ==> all_wf(r.deep_view()),
{
    let ghost all = insts.deep_view();
    let ghost p = rule@.pred();
    let mut out: Vec<Instruction> = Vec::new();
    let mut i: usize = 0;
    proof {
        reveal(Seq::filter);
        assert(all.take(0).filter(p) =~= Seq::empty());
        assert(out.deep_view() =~= Seq::empty());
    }
    while i < insts.len()
        invariant
            i <= insts.len(),
            all == insts.deep_view(),
            p == rule@.pred(),
            out.deep_view() == all.take(i as int).filter(p),
            all_wf(all) ==> all_wf(out.deep_view()),
        decreases insts.len() - i,
    {
        let ghost before = out.deep_view();
        assert(all[i as int] == insts@[i as int]@);
        proof {
            assert(all.take(i as int + 1) == all.take(i as int).push(all[i as int]));
            all.take(i as int).lemma_filter_push(all[i as int], p);
        }
        if keeps(rule, &insts[i]) {
            let copy = insts[i].duplicate();
            out.push(copy);
            proof {
                assert(out.deep_view() =~= before.push(all[i as int]));
                if all_wf(all) {
                    assert(all[i as int].wf());
                    assert forall|j: int| 0 <= j < out.deep_view().len() implies (
                    #[trigger] out.deep_view()[j]).wf() by {
                        if j < before.len() {
                            assert(out.deep_view()[j] == before[j]);
                        }
                    }
                }
            }
        }
        i = i + 1;
    }
    proof {
        assert(all.take(insts.len() as int) == all);
    }
    out
}

/// A copy of `insts`.
pub fn copy_instructions(insts: &Vec<Instruction>) -> (r: Vec<Instruction>)
    ensures
        r.deep_view() == insts.deep_view(),
{
    let mut out: Vec<Instruction> = Vec::new();
    let mut i: usize = 0;
    while i < insts.len()
        invariant
            i <= insts.len(),
            out.len() == i,
            forall|j: int| 0 <= j < i ==> out@[j]@ == insts@[j]@,
        decreases insts.len() - i,
    {
        let copy = insts[i].duplicate();
        out.push(copy);
        i = i + 1;
    }
    proof {
        assert(out.deep_view() =~= insts.deep_view());
    }
    out
}

/// The result ids of the debug-printf instruction sets that `insts` import.
pub fn collect_debug_printf_sets(insts: &Vec<Instruction>) -> (r: IdSet)
    ensures
        r@ == debug_printf_sets(insts.deep_view()),
{
    let ghost all = insts.deep_view();
    let mut sets: IdSet = id_set_new();
    let mut i: usize = 0;
    proof {
        assert(all.take(0).len() == 0);
        assert(sets@ =~= Set::empty());
    }
    while i < insts.len()
        invariant
            i <= insts.len(),
            all == insts.deep_view(),
            sets@ == debug_printf_sets(all.take(i as int)),
        decreases insts.len() - i,
    {
        let inst = &insts[i];
        proof {
            let t = all.take(i as int + 1);
            assert(t.drop_last() == all.take(i as int));
            assert(t.last() == inst@);
        }
        if inst.opcode == OP_EXT_INST_IMPORT && inst.words.len() >= 1 && packed_match(
            &inst.words,
            1,
            DEBUG_PRINTF_PREFIX.as_bytes(),
            false,
        ) {
            let ghost before = sets@;
            id_set_insert(&mut sets, inst.words[0]);
            proof {
                assert(sets@ =~= before.insert(inst.words@[0]));
            }
        }
        i = i + 1;
    }
    proof {
        assert(all.take(insts.len() as int) == all);
    }
    sets
}

/// The result ids of the struct types that `insts` declare.
pub fn collect_struct_ids(insts: &Vec<Instruction>) -> (r: IdSet)
    ensures
        r@ == struct_ids(insts.deep_view()),
{
    let ghost all = insts.deep_view();
    let mut structs: IdSet = id_set_new();
    let mut i: usize = 0;
    proof {
        assert(all.take(0).len() == 0);
        assert(structs@ =~= Set::empty());
    }
    while i < insts.len()
        invariant
            i <= insts.len(),
            all == insts.deep_view(),
            structs@ == struct_ids(all.take(i as int)),
        decreases insts.len() - i,
    {
        let inst = &insts[i];
        proof {
            let t = all.take(i as int + 1);
            assert(t.drop_last() == all.take(i as int));
            assert(t.last() == inst@);
        }
        if inst.opcode == OP_TYPE_STRUCT && inst.words.len() >= 1 {
            let ghost before = structs@;
            id_set_insert(&mut structs, inst.words[0]);
            proof {
                assert(structs@ =~= before.insert(inst.words@[0]));
            }
        }
        i = i + 1;
    }
    proof {
        assert(all.take(insts.len() as int) == all);
    }
    structs
}

/// Removes what goes with debug printf.
pub fn strip_debug_printf(module: &Module) -> (r: Module)
    ensures
        r@ == without_debug_printf(module@),
        module@.wf() ==> r@.wf(),
{
    let sets = collect_debug_printf_sets(&module.globals);
    let globals = retain(&module.globals, &Rule::WithoutImports);
    let functions = retain(&module.functions, &Rule::WithoutDebug(&sets));
    let mut header: Vec<u32> = Vec::new();
    append_words(&mut header, &module.header);
    Module { header, globals, functions }
}

/// Moves the bare push-constant pointers of `insts` behind the other instructions.
pub fn reorder_push_constant_pointers(insts: &Vec<Instruction>) -> (r: Vec<Instruction>)
    ensures
        r.deep_view() == pointers_last(insts.deep_view()),
        all_wf(insts.deep_view()) ==> all_wf(r.deep_view()),
{
    let structs = collect_struct_ids(insts);
    let mut front = retain(insts, &Rule::WithoutBarePointers(&structs));
    let back = retain(insts, &Rule::BarePointers(&structs));
    let ghost f = front.deep_view();
    let mut i: usize = 0;
    while i < back.len()
        invariant
            i <= back.len(),
            front.deep_view() == f + back.deep_view().take(i as int),
            all_wf(f) && all_wf(back.deep_view()) ==> all_wf(front.deep_view()),
        decreases back.len() - i,
    {
        let ghost before = front.deep_view();
        let copy = back[i].duplicate();
        front.push(copy);
        proof {
            assert(back.deep_view()[i as int] == back@[i as int]@);
            assert(front.deep_view() =~= before.push(back.deep_view()[i as int]));
            assert(back.deep_view().take(i as int + 1) =~= back.deep_view().take(i as int).push(
                back.deep_view()[i as int],
            ));
            if all_wf(f) && all_wf(back.deep_view()) {
                assert(back.deep_view()[i as int].wf());
                assert forall|j: int| 0 <= j < front.deep_view().len() implies (
                #[trigger] front.deep_view()[j]).wf() by {
                    if j < before.len() {
                        assert(front.deep_view()[j] == before[j]);
                    }
                }
            }
        }
        i = i + 1;
    }
    proof {
        assert(back.deep_view().take(back.len() as int) == back.deep_view());
    }
    front
}

/// What a fallible step made of a module.
pub open spec fn module_result(r: Result<Module, SpecError>) -> Result<ModuleView, SpecError> {
    match r {
        Ok(m) => Ok(m@),
        Err(e) => Err(e),
    }
}

/// What a fallible step made of a binary form.
pub open spec fn words_result(r: Result<Vec<u32>, SpecError>) -> Result<Seq<u32>, SpecError> {
    match r {
        Ok(w) => Ok(w@),
        Err(e) => Err(e),
    }
}

/// Specializes a loaded module for the threads of a group and the values of its
/// specialization constants.
pub fn specialize_module(module: &Module, threads: u32, consts: &[ScalarElem], debug_printf: bool) -> (r:
    Result<Module, SpecError>)
    ensures
        module_result(r) == specialized_module(module@, threads, consts@, debug_printf),
        module@.wf() && r is Ok ==> r->Ok_0@.wf(),
{
    let ids = collect_spec_ids(&module.globals);
    let frozen = match freeze_instructions(&module.globals, &ids, consts, threads) {
        Ok(f) => f,
        Err(e) => { return Err(e); },
    };
    let globals = retain(&frozen, &Rule::WithoutSpecIds);
    let functions = copy_instructions(&module.functions);
    let mut header: Vec<u32> = Vec::new();
    append_words(&mut header, &module.header);
    let plain = Module { header, globals, functions };
    let gated = if debug_printf {
        plain
    } else {
        strip_debug_printf(&plain)
    };
    let reordered = reorder_push_constant_pointers(&gated.globals);
    Ok(Module { header: gated.header, globals: reordered, functions: gated.functions })
}

/// Specializes a module given in binary form, and gives the binary form of the result.
///
/// The result is a function of the arguments: the same words, threads, constants and
/// `debug_printf` give the same words, or the same error.
pub fn specialize(words: &[u32], threads: u32, consts: &[ScalarElem], debug_printf: bool) -> (r:
    Result<Vec<u32>, SpecError>)
    ensures
        words_result(r) == specialized(loaded_parts(words@), threads, consts@, debug_printf),
{
    let module = match Module::load(words) {
        Some(m) => m,
        None => { return Err(SpecError::InvalidModule); },
    };
    match specialize_module(&module, threads, consts, debug_printf) {
        Ok(m) => Ok(m.assemble()),
        Err(e) => Err(e),
    }
}

} // verus!
