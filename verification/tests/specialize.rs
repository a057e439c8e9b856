use krnl::error::SpecError;
use krnl::scalar::ScalarElem;
use krnl::specialize::specialize;
use krnl::specialize::specialize_module;
use krnl::spirv::is_loadable;
use krnl::spirv::Instruction;
use krnl::spirv::Module;

fn inst(opcode: u32, words: &[u32]) -> Vec<u32> {
    let mut out = vec![((words.len() as u32 + 1) << 16) | opcode];
    out.extend_from_slice(words);
    out
}

fn string(s: &str) -> Vec<u32> {
    let mut bytes = s.as_bytes().to_vec();
    bytes.push(0);
    while bytes.len() % 4 != 0 {
        bytes.push(0);
    }
    bytes.chunks(4).map(|c| u32::from_le_bytes([c[0], c[1], c[2], c[3]])).collect()
}

fn header() -> Vec<u32> {
    vec![0x0723_0203, 0x0001_0500, 0x000f_0000, 64, 0]
}

fn foreign_header() -> Vec<u32> {
    vec![0x0723_0203, 0x0001_0500, 0x0008_0001, 64, 0]
}

fn import(id: u32, name: &str) -> Vec<u32> {
    let mut words = vec![id];
    words.extend(string(name));
    inst(11, &words)
}

fn generic_module() -> Vec<u32> {
    let mut m = foreign_header();
    m.extend(inst(17, &[1]));
    m.extend(inst(10, &string("SPV_KHR_non_semantic_info")));
    m.extend(import(1, "NonSemantic.DebugPrintf"));
    m.extend(inst(14, &[0, 1]));
    m.extend(inst(71, &[10, 1, 0]));
    m.extend(inst(71, &[11, 1, 1]));
    m.extend(inst(21, &[2, 32, 0]));
    m.extend(inst(20, &[3]));
    m.extend(inst(50, &[2, 10, 5]));
    m.extend(inst(50, &[2, 11, 1]));
    m.extend(inst(52, &[2, 12, 128, 10, 11]));
    m.extend(inst(32, &[20, 9, 2]));
    m.extend(inst(30, &[21, 2]));
    m.extend(inst(19, &[4]));
    m.extend(inst(33, &[5, 4]));
    m.extend(inst(54, &[4, 6, 0, 5]));
    m.extend(inst(248, &[7]));
    m.extend(inst(12, &[4, 8, 1, 1, 12]));
    m.extend(inst(317, &[]));
    m.extend(inst(253, &[]));
    m.extend(inst(56, &[]));
    m
}

fn specialized_module(debug_printf: bool, a: u32, threads: u32) -> Vec<u32> {
    let mut m = header();
    m.extend(inst(17, &[1]));
    if debug_printf {
        m.extend(inst(10, &string("SPV_KHR_non_semantic_info")));
        m.extend(import(1, "NonSemantic.DebugPrintf"));
    }
    m.extend(inst(14, &[0, 1]));
    m.extend(inst(21, &[2, 32, 0]));
    m.extend(inst(20, &[3]));
    m.extend(inst(43, &[2, 10, a]));
    m.extend(inst(43, &[2, 11, threads]));
    m.extend(inst(43, &[2, 12, a + threads]));
    m.extend(inst(30, &[21, 2]));
    m.extend(inst(19, &[4]));
    m.extend(inst(33, &[5, 4]));
    m.extend(inst(32, &[20, 9, 2]));
    m.extend(inst(54, &[4, 6, 0, 5]));
    m.extend(inst(248, &[7]));
    if debug_printf {
        m.extend(inst(12, &[4, 8, 1, 1, 12]));
        m.extend(inst(317, &[]));
    }
    m.extend(inst(253, &[]));
    m.extend(inst(56, &[]));
    m
}

#[test]
fn specializes_binds_freezes_strips_and_reorders() {
    let out = specialize(&generic_module(), 64, &[ScalarElem::U32(7)], false).unwrap();
    assert_eq!(out, specialized_module(false, 7, 64));
}

#[test]
fn specialize_keeps_debug_printf_when_enabled() {
    let out = specialize(&generic_module(), 32, &[ScalarElem::U32(9)], true).unwrap();
    assert_eq!(out, specialized_module(true, 9, 32));
}

#[test]
fn specializing_twice_gives_identical_words() {
    let a = specialize(&generic_module(), 128, &[ScalarElem::U32(3)], false).unwrap();
    let b = specialize(&generic_module(), 128, &[ScalarElem::U32(3)], false).unwrap();
    assert_eq!(a, b);
}

#[test]
fn specialize_rejects_words_that_are_no_module() {
    assert_eq!(specialize(&[1, 2, 3], 64, &[], false), Err(SpecError::InvalidModule));
    assert_eq!(specialize(&[], 64, &[], false), Err(SpecError::InvalidModule));
    assert_eq!(specialize(&[1, 2, 3, 4, 5], 64, &[], false), Err(SpecError::InvalidModule));
    let mut unknown = header();
    unknown.extend(inst(9999, &[1]));
    assert_eq!(specialize(&unknown, 64, &[], false), Err(SpecError::InvalidModule));
}

#[test]
fn words_that_end_within_an_instruction_are_not_loaded() {
    let mut cut = header();
    cut.push((3 << 16) | 10);
    assert!(!is_loadable(&cut));
    assert!(Module::load(&cut).is_none());
    assert_eq!(specialize(&cut, 64, &[], false), Err(SpecError::InvalidModule));
    let mut cut = generic_module();
    cut.truncate(cut.len() - 4);
    assert!(!is_loadable(&cut));
    assert_eq!(specialize(&cut, 64, &[], false), Err(SpecError::InvalidModule));
    let mut unclosed = generic_module();
    unclosed.pop();
    assert!(is_loadable(&unclosed));
    assert_eq!(specialize(&unclosed, 64, &[], false), Err(SpecError::InvalidModule));
    let mut empty_count = header();
    empty_count.push(17);
    assert!(!is_loadable(&empty_count));
    assert!(Module::load(&empty_count).is_none());
}

#[test]
fn a_constant_operation_on_an_unreadable_opcode_is_not_loaded() {
    for embedded in [43u32, 50, 52, 251, (7 << 16) | 43] {
        let mut m = header();
        m.extend(inst(52, &[1, 2, embedded, 0]));
        assert!(!is_loadable(&m));
        assert!(Module::load(&m).is_none());
        assert_eq!(specialize(&m, 64, &[], false), Err(SpecError::InvalidModule));
    }
    let mut short = header();
    short.extend(inst(52, &[1, 2]));
    assert!(is_loadable(&short));
    assert!(Module::load(&short).is_none());
}

#[test]
fn words_of_a_module_are_loadable() {
    assert!(is_loadable(&generic_module()));
    assert!(is_loadable(&header()));
    assert!(!is_loadable(&header()[..4]));
    assert!(Module::load(&header()).is_some());
}

#[test]
fn specialize_reports_unsupported_constant_op() {
    let mut m = header();
    m.extend(inst(17, &[1]));
    m.extend(inst(14, &[0, 1]));
    m.extend(inst(21, &[2, 32, 0]));
    m.extend(inst(43, &[2, 10, 5]));
    m.extend(inst(43, &[2, 11, 1]));
    m.extend(inst(52, &[2, 12, 197, 10, 11]));
    assert_eq!(specialize(&m, 64, &[], false), Err(SpecError::Unsupported(197)));
}

#[test]
fn specialize_reports_cast_out_of_range() {
    let mut m = header();
    m.extend(inst(17, &[1]));
    m.extend(inst(14, &[0, 1]));
    m.extend(inst(21, &[2, 32, 0]));
    m.extend(inst(21, &[3, 8, 0]));
    m.extend(inst(43, &[2, 10, 300]));
    m.extend(inst(52, &[3, 12, 113, 10]));
    assert_eq!(specialize(&m, 64, &[], false), Err(SpecError::OutOfRange));
}

#[test]
fn specialize_module_works_on_a_module_given_by_parts() {
    let globals = vec![inst(21, &[2, 32, 0]), inst(50, &[2, 10, 5]), inst(71, &[10, 1, 0])];
    let module = Module::from_parts(header(), &globals, &vec![]).unwrap();
    let out = specialize_module(&module, 1, &[ScalarElem::U32(0xdead_beef)], false).unwrap();
    assert_eq!(out.globals.len(), 2);
    assert_eq!(out.globals[1].opcode, 43);
    assert_eq!(out.globals[1].words, vec![2, 10, 0xdead_beef]);
    let mut expected = header();
    expected.extend(inst(21, &[2, 32, 0]));
    expected.extend(inst(43, &[2, 10, 0xdead_beef]));
    assert_eq!(out.assemble(), expected);
}

#[test]
fn instruction_decodes_what_it_encodes() {
    let i = Instruction::new(43, vec![2, 10, 5]);
    let mut words = Vec::new();
    i.encode_into(&mut words);
    assert_eq!(words, vec![(4 << 16) | 43, 2, 10, 5]);
    let back = Instruction::decode(&words).unwrap();
    assert_eq!(back.opcode, 43);
    assert_eq!(back.words, vec![2, 10, 5]);
    assert!(Instruction::decode(&[(3 << 16) | 43, 2, 10, 5]).is_none());
    assert!(Instruction::decode(&[]).is_none());
}
