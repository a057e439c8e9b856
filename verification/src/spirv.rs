//! A SPIR-V module as the specializer sees it: the header and the instructions in layout
//! order, each held by its opcode and the words that follow the first.
use vstd::prelude::*;
use vstd::slice::slice_subrange;
use vstd::slice::slice_to_vec;
use rspirv::binary::Assemble;

verus! {

// The opcodes that the specializer looks at.
pub const OP_LINE: u16 = 8;
pub const OP_EXTENSION: u16 = 10;
pub const OP_EXT_INST_IMPORT: u16 = 11;
pub const OP_EXT_INST: u16 = 12;
pub const OP_TYPE_INT: u16 = 21;
pub const OP_TYPE_FLOAT: u16 = 22;
pub const OP_TYPE_STRUCT: u16 = 30;
pub const OP_TYPE_POINTER: u16 = 32;
pub const OP_CONSTANT_TRUE: u16 = 41;
pub const OP_CONSTANT_FALSE: u16 = 42;
pub const OP_CONSTANT: u16 = 43;
pub const OP_CONSTANT_COMPOSITE: u16 = 44;
pub const OP_SPEC_CONSTANT_TRUE: u16 = 48;
pub const OP_SPEC_CONSTANT_FALSE: u16 = 49;
pub const OP_SPEC_CONSTANT: u16 = 50;
pub const OP_SPEC_CONSTANT_COMPOSITE: u16 = 51;
pub const OP_SPEC_CONSTANT_OP: u16 = 52;
pub const OP_DECORATE: u16 = 71;
pub const OP_NO_LINE: u16 = 317;

/// The `SpecId` decoration.
pub const DECORATION_SPEC_ID: u32 = 1;
/// The `PushConstant` storage class.
pub const STORAGE_CLASS_PUSH_CONSTANT: u32 = 9;
/// Most words that one instruction can have, its first word included.
pub const MAX_INSTRUCTION_WORDS: usize = 0xffff;

/// One instruction: the opcode from the low half of its first word, and the words after
/// the first (result type and result id, where the opcode has them, then the operands).
#[derive(Debug)]
pub struct Instruction {
    pub opcode: u16,
    pub words: Vec<u32>,
}

/// What an `Instruction` holds.
pub struct Inst {
    pub opcode: u16,
    pub words: Seq<u32>,
}

impl View for Instruction {
    type V = Inst;

    open spec fn view(&self) -> Inst {
        Inst { opcode: self.opcode, words: self.words@ }
    }
}

impl DeepView for Instruction {
    type V = Inst;

    open spec fn deep_view(&self) -> Inst {
        self@
    }
}

impl Inst {
    /// The instruction fits the 16 bits its first word has for the word count.
    pub open spec fn wf(self) -> bool {
        self.words.len() < MAX_INSTRUCTION_WORDS
    }

    /// The instruction's binary form: word count and opcode in the first word, then the rest.
    pub open spec fn encode(self) -> Seq<u32> {
        seq![((self.words.len() + 1) * 0x1_0000 + self.opcode) as u32] + self.words
    }

    /// The instruction that `w` is the binary form of, if it is one: the high half of the
    /// first word must be the number of words.
    pub open spec fn decode(w: Seq<u32>) -> Option<Inst> {
        if 1 <= w.len() <= MAX_INSTRUCTION_WORDS && w[0] as int / 0x1_0000 == w.len() {
            Some(Inst { opcode: (w[0] as int % 0x1_0000) as u16, words: w.subrange(1, w.len() as int) })
        } else {
            None
        }
    }
}

/// All of `s` in binary form, one instruction after the other.
pub open spec fn encode_all(s: Seq<Inst>) -> Seq<u32>
    decreases s.len(),
{
    if s.len() == 0 {
        Seq::empty()
    } else {
        encode_all(s.drop_last()) + s.last().encode()
    }
}

/// The instructions that the items of `s` are the binary forms of, if each is one.
pub open spec fn decode_all(s: Seq<Seq<u32>>) -> Option<Seq<Inst>> {
    if forall|i: int| 0 <= i < s.len() ==> (#[trigger] Inst::decode(s[i])) is Some {
        Some(Seq::new(s.len(), |i: int| Inst::decode(s[i])->0))
    } else {
        None
    }
}

/// What a fallible step made of an instruction.
pub open spec fn inst_result<E>(r: Result<Instruction, E>) -> Result<Inst, E> {
    match r {
        Ok(i) => Ok(i@),
        Err(e) => Err(e),
    }
}

/// What a fallible pass made of a list of instructions.
pub open spec fn insts_result<E>(r: Result<Vec<Instruction>, E>) -> Result<Seq<Inst>, E> {
    match r {
        Ok(v) => Ok(v.deep_view()),
        Err(e) => Err(e),
    }
}

/// Every instruction of `s` fits its word count.
pub open spec fn all_wf(s: Seq<Inst>) -> bool {
    forall|i: int| 0 <= i < s.len() ==> (#[trigger] s[i]).wf()
}

/// Decoding an instruction's binary form gives the instruction back.
pub proof fn lemma_decode_encode(i: Inst)
    requires
        i.wf(),
    ensures
        Inst::decode(i.encode()) == Some(i),
{
    let w = i.encode();
    let n = i.words.len() + 1;
    assert(w[0] == (n * 0x1_0000 + i.opcode) as u32);
    assert((n * 0x1_0000 + i.opcode) / 0x1_0000 == n && (n * 0x1_0000 + i.opcode) % 0x1_0000
        == i.opcode as int) by (nonlinear_arith)
        requires
            0 <= i.opcode < 0x1_0000,
            1 <= n <= 0xffff,
    ;
    assert(w.subrange(1, w.len() as int) == i.words);
}

/// Encoding what a binary form decodes to gives the binary form back.
pub proof fn lemma_encode_decode(w: Seq<u32>)
    requires
        Inst::decode(w) is Some,
    ensures
        (Inst::decode(w)->0).encode() == w,
        (Inst::decode(w)->0).wf(),
{
    let i = Inst::decode(w)->0;
    let x = w[0] as int;
    assert(x == (x / 0x1_0000) * 0x1_0000 + x % 0x1_0000) by (nonlinear_arith);
    assert(i.encode() =~= w);
}

impl Instruction {
    /// The instruction with this opcode and these words after the first.
    pub fn new(opcode: u16, words: Vec<u32>) -> (r: Instruction)
        ensures
            r@ == (Inst { opcode, words: words@ }),
    {
        Instruction { opcode, words }
    }

    /// A copy of the instruction.
    pub fn duplicate(&self) -> (r: Instruction)
        ensures
            r@ == self@,
    {
        let mut words: Vec<u32> = Vec::new();
        append_words(&mut words, &self.words);
        Instruction { opcode: self.opcode, words }
    }

    /// Reads one instruction from its binary form.
    pub fn decode(w: &[u32]) -> (r: Option<Instruction>)
        ensures
            r.deep_view() == Inst::decode(w@),
    {
        let n: usize = w.len();
        if n < 1 || n > MAX_INSTRUCTION_WORDS {
            return None;
        }
        let first: u32 = w[0];
        if (first / 0x1_0000) as usize != n {
            return None;
        }
        let words = slice_to_vec(slice_subrange(w, 1, n));
        Some(Instruction { opcode: (first % 0x1_0000) as u16, words })
    }

    /// Appends the instruction's binary form to `out`.
    pub fn encode_into(&self, out: &mut Vec<u32>)
        requires
            self@.wf(),
        ensures
            final(out)@ == old(out)@ + self@.encode(),
    {
        let n: u32 = (self.words.len() + 1) as u32;
        let ghost before = out@;
        out.push(n * 0x1_0000 + self.opcode as u32);
        append_words(out, &self.words);
        proof {
            assert(out@ =~= before + self@.encode());
        }
    }
}

/// Appends the words of `src` to `out`.
pub fn append_words(out: &mut Vec<u32>, src: &Vec<u32>)
    ensures
        final(out)@ == old(out)@ + src@,
{
    let mut i: usize = 0;
    while i < src.len()
        invariant
            i <= src.len(),
            out@ == old(out)@ + src@.take(i as int),
        decreases src.len() - i,
    {
        out.push(src[i]);
        proof {
            assert(src@.take(i as int + 1) == src@.take(i as int).push(src@[i as int]));
        }
        i = i + 1;
    }
    proof {
        assert(src@.take(src.len() as int) == src@);
    }
}

/// A module: the five header words and the instructions in layout order, those before the
/// first function apart from those of the functions.
#[derive(Debug)]
pub struct Module {
    pub header: Vec<u32>,
    pub globals: Vec<Instruction>,
    pub functions: Vec<Instruction>,
}

/// What a `Module` holds.
pub struct ModuleView {
    pub header: Seq<u32>,
    pub globals: Seq<Inst>,
    pub functions: Seq<Inst>,
}

impl View for Module {
    type V = ModuleView;

    open spec fn view(&self) -> ModuleView {
        ModuleView {
            header: self.header@,
            globals: self.globals.deep_view(),
            functions: self.functions.deep_view(),
        }
    }
}

impl DeepView for Module {
    type V = ModuleView;

    open spec fn deep_view(&self) -> ModuleView {
        self@
    }
}

impl ModuleView {
    /// Every instruction fits its word count.
    pub open spec fn wf(self) -> bool {
        all_wf(self.globals) && all_wf(self.functions)
    }

    /// The module's binary form: header, then every instruction in order.
    pub open spec fn assemble(self) -> Seq<u32> {
        self.header + encode_all(self.globals) + encode_all(self.functions)
    }

    /// The module made of a header and of binary instructions, if each of these is an
    /// instruction's binary form.
    pub open spec fn from_parts(
        header: Seq<u32>,
        globals: Seq<Seq<u32>>,
        functions: Seq<Seq<u32>>,
    ) -> Option<ModuleView> {
        match (decode_all(globals), decode_all(functions)) {
            (Some(g), Some(f)) => Some(ModuleView { header, globals: g, functions: f }),
            _ => None,
        }
    }

    /// The module that `words` load as, given what the loader made of them.
    pub open spec fn load(loaded: Option<(Seq<u32>, Seq<Seq<u32>>, Seq<Seq<u32>>)>) -> Option<
        ModuleView,
    > {
        match loaded {
            Some((header, globals, functions)) => Self::from_parts(header, globals, functions),
            None => None,
        }
    }
}

/// Whether the embedded opcode `op` of a constant operation is one whose operands the loader
/// cannot read: those of `OpConstant`, `OpSpecConstant`, `OpSpecConstantOp` and `OpSwitch`.
pub open spec fn is_unreadable(op: int) -> bool {
    op == 43 || op == 50 || op == 52 || op == 251
}

/// Whether the words from `p` on are instructions one after the other, each with a word count
/// of at least 1 that ends within the words, and no constant operation among them embeds an
/// opcode whose operands the loader cannot read.
pub open spec fn framed(words: Seq<u32>, p: int) -> bool
    decreases words.len() - p,
{
    if p < 0 || p >= words.len() {
        true
    } else {
        let count = words[p] as int / 0x1_0000;
        let opcode = words[p] as int % 0x1_0000;
        &&& count >= 1
        &&& p + count <= words.len()
        &&& !(opcode == OP_SPEC_CONSTANT_OP && count >= 4 && is_unreadable(
            words[p + 3] as int % 0x1_0000,
        ))
        &&& framed(words, p + count)
    }
}

/// Whether `words` can be handed to the loader: five header words, and then instructions
/// that are framed.
pub open spec fn loadable(words: Seq<u32>) -> bool {
    words.len() >= 5 && framed(words, 5)
}

/// What loading makes of `words`: nothing where they cannot be handed to the loader, else
/// what the loader makes of them.
pub open spec fn loaded_parts(words: Seq<u32>) -> Option<(Seq<u32>, Seq<Seq<u32>>, Seq<Seq<u32>>)> {
    if loadable(words) {
        spirv_loaded(words)
    } else {
        None
    }
}

/// Whether `words` can be handed to the loader.
pub fn is_loadable(words: &[u32]) -> (r: bool)
    ensures
        r == loadable(words@),
{
    if words.len() < 5 {
        return false;
    }
    let mut p: usize = 5;
    while p < words.len()
        invariant
            5 <= p <= words.len(),
            framed(words@, 5) == framed(words@, p as int),
        decreases words.len() - p,
    {
        let count: usize = (words[p] / 0x1_0000) as usize;
        let opcode: u32 = words[p] % 0x1_0000;
        if count < 1 || count > words.len() - p {
            return false;
        }
        if opcode == 52 && count >= 4 {
            let embedded: u32 = words[p + 3] % 0x1_0000;
            if embedded == 43 || embedded == 50 || embedded == 52 || embedded == 251 {
                return false;
            }
        }
        p = p + count;
    }
    true
}

/// What `rspirv::dr::load_words` makes of `words`: `None` where it rejects them, else the
/// header's words, the binary form of each instruction before the first function, and that
/// of each instruction of the functions, all in the loaded module's layout order.
pub uninterp spec fn spirv_loaded(words: Seq<u32>) -> Option<(Seq<u32>, Seq<Seq<u32>>, Seq<Seq<u32>>)>;

/// Calls `rspirv::dr::load_words` and hands out the loaded module's header and instructions
/// in the order in which `rspirv` assembles them, each instruction as `rspirv` assembles it.
/// The contract names the result: it is a function of the words alone.
///
/// The loader panics on words that end within an instruction with a string, and on a
/// constant operation that embeds an opcode whose operands it cannot read: only words that
/// are `loadable` are handed to it.
#[verifier::external_body]
fn load_words(words: &[u32]) -> (r: Option<(Vec<u32>, Vec<Vec<u32>>, Vec<Vec<u32>>)>)
    requires
        loadable(words@),
    ensures
        r.deep_view() == spirv_loaded(words@),
{
    let module = rspirv::dr::load_words(words).ok()?;
    let header = module.header.as_ref().map(|h| h.assemble()).unwrap_or_default();
    let globals = module.global_inst_iter().map(|i| i.assemble()).collect();
    let functions =
        module.functions.iter().flat_map(|f| f.all_inst_iter()).map(|i| i.assemble()).collect();
    Some((header, globals, functions))
}

/// Reads each binary instruction of `raw`; `None` if one of them is malformed.
pub fn decode_instructions(raw: &Vec<Vec<u32>>) -> (r: Option<Vec<Instruction>>)
    ensures
        r.deep_view() == decode_all(raw.deep_view()),
        r is Some ==> all_wf(r->0.deep_view()),
{
    let mut out: Vec<Instruction> = Vec::new();
    let mut i: usize = 0;
    while i < raw.len()
        invariant
            i <= raw.len(),
            out.len() == i,
            forall|j: int| 0 <= j < i ==> Inst::decode(#[trigger] raw.deep_view()[j]) == Some(out@[j]@),
        decreases raw.len() - i,
    {
        assert(raw.deep_view()[i as int] == raw@[i as int]@);
        match Instruction::decode(raw[i].as_slice()) {
            Some(inst) => {
                out.push(inst);
            },
            None => {
                assert(Inst::decode(raw.deep_view()[i as int]) is None);
                return None;
            },
        }
        i = i + 1;
    }
    proof {
        let d = decode_all(raw.deep_view());
        assert(d is Some);
        assert(out.deep_view() =~= d->0);
        assert forall|j: int| 0 <= j < out.deep_view().len() implies (#[trigger] out.deep_view()[j]).wf() by {
            assert(Inst::decode(raw.deep_view()[j]) == Some(out@[j]@));
        }
    }
    Some(out)
}

impl Module {
    /// Makes a module of a header and of binary instructions; `None` if an instruction is
    /// malformed.
    pub fn from_parts(header: Vec<u32>, globals: &Vec<Vec<u32>>, functions: &Vec<Vec<u32>>) -> (r:
        Option<Module>)
        ensures
            r.deep_view() == ModuleView::from_parts(
                header@,
                globals.deep_view(),
                functions.deep_view(),
            ),
            r is Some ==> r->0@.wf(),
    {
        let g = match decode_instructions(globals) {
            Some(g) => g,
            None => { return None; },
        };
        let f = match decode_instructions(functions) {
            Some(f) => f,
            None => { return None; },
        };
        Some(Module { header, globals: g, functions: f })
    }

    /// Loads a module from its binary form; `None` where the words are not framed as
    /// instructions, the loader rejects them, or it hands out a malformed instruction.
    pub fn load(words: &[u32]) -> (r: Option<Module>)
        ensures
            r.deep_view() == ModuleView::load(loaded_parts(words@)),
            r is Some ==> r->0@.wf(),
    {
        if !is_loadable(words) {
            return None;
        }
        match load_words(words) {
            Some((header, globals, functions)) => {
                assert(header.deep_view() == header@);
                Module::from_parts(header, &globals, &functions)
            },
            None => None,
        }
    }

    /// Whether every instruction fits its word count.
    pub fn is_wf(&self) -> (r: bool)
        ensures
            r == self@.wf(),
    {
        instructions_fit(&self.globals) && instructions_fit(&self.functions)
    }

    /// The module's binary form.
    pub fn assemble(&self) -> (r: Vec<u32>)
        requires
            self@.wf(),
        ensures
            r@ == self@.assemble(),
    {
        let mut out: Vec<u32> = Vec::new();
        append_words(&mut out, &self.header);
        encode_instructions(&self.globals, &mut out);
        encode_instructions(&self.functions, &mut out);
        out
    }
}

/// Whether every instruction of `insts` fits its word count.
pub fn instructions_fit(insts: &Vec<Instruction>) -> (r: bool)
    ensures
        r == all_wf(insts.deep_view()),
{
    let mut i: usize = 0;
    while i < insts.len()
        invariant
            i <= insts.len(),
            forall|j: int| 0 <= j < i ==> (#[trigger] insts.deep_view()[j]).wf(),
        decreases insts.len() - i,
    {
        if insts[i].words.len() >= MAX_INSTRUCTION_WORDS {
            assert(!insts.deep_view()[i as int].wf());
            return false;
        }
        assert(insts.deep_view()[i as int].wf());
        i = i + 1;
    }
    true
}

/// Appends the binary form of each instruction of `insts` to `out`.
pub fn encode_instructions(insts: &Vec<Instruction>, out: &mut Vec<u32>)
    requires
        all_wf(insts.deep_view()),
    ensures
        final(out)@ == old(out)@ + encode_all(insts.deep_view()),
{
    let ghost all = insts.deep_view();
    let mut i: usize = 0;
    proof {
        assert(encode_all(all.take(0)) == Seq::<u32>::empty());
        assert(out@ == old(out)@ + Seq::<u32>::empty());
    }
    while i < insts.len()
        invariant
            i <= insts.len(),
            all == insts.deep_view(),
            all_wf(all),
            out@ == old(out)@ + encode_all(all.take(i as int)),
        decreases insts.len() - i,
    {
        assert(all[i as int].wf());
        assert(all[i as int] == insts@[i as int]@);
        insts[i].encode_into(out);
        proof {
            let t = all.take(i as int + 1);
            assert(t.drop_last() == all.take(i as int));
            assert(t.last() == all[i as int]);
            assert(out@ == old(out)@ + encode_all(t));
        }
        i = i + 1;
    }
    proof {
        assert(all.take(insts.len() as int) == all);
    }
}

} // verus!
