use krnl::error::SpecError;
use krnl::freeze::collect_spec_ids;
use krnl::freeze::freeze_instructions;
use krnl::scalar::ScalarElem;
use krnl::specialize::byte_of_word;
use krnl::specialize::packed_match;
use krnl::specialize::reorder_push_constant_pointers;
use krnl::specialize::strip_debug_printf;
use krnl::spirv::decode_instructions;
use krnl::spirv::Instruction;
use krnl::spirv::Module;

fn i(opcode: u16, words: &[u32]) -> Instruction {
    Instruction::new(opcode, words.to_vec())
}

fn pairs(v: &[Instruction]) -> Vec<(u16, Vec<u32>)> {
    v.iter().map(|x| (x.opcode, x.words.clone())).collect()
}

fn string(s: &str) -> Vec<u32> {
    let mut bytes = s.as_bytes().to_vec();
    bytes.push(0);
    while bytes.len() % 4 != 0 {
        bytes.push(0);
    }
    bytes.chunks(4).map(|c| u32::from_le_bytes([c[0], c[1], c[2], c[3]])).collect()
}

fn freeze(insts: &[Instruction], consts: &[ScalarElem], threads: u32) -> Result<Vec<Instruction>, SpecError> {
    let insts = insts.iter().map(|x| x.duplicate()).collect::<Vec<_>>();
    let ids = collect_spec_ids(&insts);
    freeze_instructions(&insts, &ids, consts, threads)
}

#[test]
fn spec_ids_come_from_decorations() {
    let insts = vec![i(71, &[10, 1, 0]), i(71, &[11, 0, 9]), i(71, &[12, 1, 3]), i(71, &[10, 1, 7])];
    let ids = collect_spec_ids(&insts);
    assert_eq!(ids.len(), 2);
    assert_eq!(ids.get(&10), Some(&7));
    assert_eq!(ids.get(&12), Some(&3));
}

#[test]
fn binding_replaces_the_low_bytes_of_the_literal() {
    let insts = [
        i(21, &[2, 8, 0]),
        i(21, &[3, 64, 1]),
        i(21, &[4, 16, 1]),
        i(71, &[10, 1, 0]),
        i(71, &[11, 1, 1]),
        i(71, &[12, 1, 2]),
        i(71, &[13, 1, 3]),
        i(50, &[2, 10, 0xaabb_ccdd]),
        i(50, &[3, 11, 1, 2]),
        i(50, &[4, 12, 0xffff_0001]),
        i(50, &[2, 14, 9]),
    ];
    let consts = [ScalarElem::U8(0x11), ScalarElem::I64(-2), ScalarElem::I16(-3)];
    let out = freeze(&insts, &consts, 64).unwrap();
    assert_eq!(out[7].opcode, 43);
    assert_eq!(out[7].words, vec![2, 10, 0xaabb_cc11]);
    assert_eq!(out[8].words, vec![3, 11, 0xffff_fffe, 0xffff_ffff]);
    assert_eq!(out[9].words, vec![4, 12, 0xffff_fffd]);
    assert_eq!(out[10].words, vec![2, 14, 9]);
    assert_eq!(out[10].opcode, 43);
}

#[test]
fn threads_have_the_id_after_the_last_constant() {
    let insts = [i(21, &[2, 32, 0]), i(71, &[10, 1, 1]), i(71, &[11, 1, 2]), i(50, &[2, 10, 1]), i(50, &[2, 11, 5])];
    let out = freeze(&insts, &[ScalarElem::U32(0)], 256).unwrap();
    assert_eq!(out[3].words, vec![2, 10, 256]);
    assert_eq!(out[4].words, vec![2, 11, 5]);
}

#[test]
fn binding_needs_the_width_of_the_literal() {
    let insts = [i(21, &[2, 32, 0]), i(71, &[10, 1, 0]), i(50, &[2, 10, 1])];
    assert_eq!(freeze(&insts, &[ScalarElem::U64(1)], 1).err(), Some(SpecError::WidthMismatch));
    let insts = [i(21, &[2, 64, 0]), i(71, &[10, 1, 0]), i(50, &[2, 10, 1, 0])];
    assert_eq!(freeze(&insts, &[ScalarElem::U32(1)], 1).err(), Some(SpecError::WidthMismatch));
}

#[test]
fn spec_constants_become_constants() {
    let insts = [
        i(20, &[1]),
        i(21, &[2, 32, 1]),
        i(48, &[1, 20]),
        i(49, &[1, 21]),
        i(41, &[1, 22]),
        i(51, &[9, 30, 20, 21]),
        i(22, &[3, 16]),
        i(50, &[3, 31, 0x3c00]),
    ];
    let out = freeze(&insts, &[], 1).unwrap();
    assert_eq!(
        pairs(&out),
        vec![
            (20, vec![1]),
            (21, vec![2, 32, 1]),
            (41, vec![1, 20]),
            (42, vec![1, 21]),
            (41, vec![1, 22]),
            (44, vec![9, 30, 20, 21]),
            (22, vec![3, 16]),
            (43, vec![3, 31, 0x3c00]),
        ]
    );
}

#[test]
fn constant_operations_fold_over_earlier_values() {
    let insts = [
        i(20, &[1]),
        i(21, &[2, 32, 1]),
        i(21, &[3, 64, 0]),
        i(21, &[4, 8, 1]),
        i(43, &[2, 10, 0xffff_fffb]),
        i(43, &[2, 11, 3]),
        i(52, &[2, 12, 128, 10, 11]),
        i(52, &[2, 13, 132, 12, 11]),
        i(52, &[1, 14, 177, 13, 10]),
        i(52, &[2, 15, 169, 14, 10, 11]),
        i(52, &[1, 16, 169, 14, 14, 14]),
        i(52, &[2, 17, 126, 15]),
        i(52, &[3, 18, 114, 11]),
        i(52, &[4, 19, 114, 10]),
        i(52, &[2, 20, 200, 11]),
        i(52, &[3, 21, 130, 18, 18]),
    ];
    let out = freeze(&insts, &[], 1).unwrap();
    assert_eq!(out[6].words, vec![2, 12, 0xffff_fffe]);
    assert_eq!(out[7].words, vec![2, 13, 0xffff_fffa]);
    assert_eq!((out[8].opcode, out[8].words.clone()), (41, vec![1, 14]));
    assert_eq!((out[9].opcode, out[9].words.clone()), (43, vec![2, 15, 0xffff_fffb]));
    assert_eq!((out[10].opcode, out[10].words.clone()), (41, vec![1, 16]));
    assert_eq!(out[11].words, vec![2, 17, 5]);
    assert_eq!(out[12].words, vec![3, 18, 3, 0]);
    assert_eq!(out[13].words, vec![4, 19, 0xfb]);
    assert_eq!(out[14].words, vec![2, 20, 0xffff_fffc]);
    assert_eq!(out[15].words, vec![3, 21, 0, 0]);
}

#[test]
fn signed_modulo_takes_the_sign_of_the_divisor() {
    let insts = [
        i(21, &[1, 32, 1]),
        i(43, &[1, 2, 0xffff_fff9]),
        i(43, &[1, 3, 2]),
        i(52, &[1, 4, 139, 2, 3]),
        i(52, &[1, 5, 138, 2, 3]),
        i(20, &[9]),
        i(52, &[9, 6, 176, 2, 3]),
        i(52, &[9, 7, 177, 2, 3]),
    ];
    let out = freeze(&insts, &[], 1).unwrap();
    assert_eq!((out[3].opcode, out[3].words.clone()), (43, vec![1, 4, 1]));
    assert_eq!((out[4].opcode, out[4].words.clone()), (43, vec![1, 5, 0xffff_ffff]));
    assert_eq!((out[6].opcode, out[6].words.clone()), (42, vec![9, 6]));
    assert_eq!((out[7].opcode, out[7].words.clone()), (41, vec![9, 7]));
}

#[test]
fn freezing_stops_at_the_first_fault() {
    let int = i(21, &[2, 32, 0]);
    let one = i(43, &[2, 10, 1]);
    assert_eq!(
        freeze(&[int.duplicate(), one.duplicate(), i(52, &[2, 12, 168, 10])], &[], 1).err(),
        Some(SpecError::Unsupported(168))
    );
    assert_eq!(
        freeze(&[int.duplicate(), one.duplicate(), i(52, &[2, 12, 194, 10, 10])], &[], 1).err(),
        Some(SpecError::Unsupported(194))
    );
    assert_eq!(
        freeze(&[int.duplicate(), one.duplicate(), i(52, &[2, 12, 128, 10, 11])], &[], 1).err(),
        Some(SpecError::UnknownId)
    );
    assert_eq!(
        freeze(&[int.duplicate(), one.duplicate(), i(52, &[3, 12, 128, 10, 10])], &[], 1).err(),
        Some(SpecError::UnknownId)
    );
    assert_eq!(freeze(&[i(43, &[2, 10, 1])], &[], 1).err(), Some(SpecError::UnknownId));
    assert_eq!(
        freeze(&[int.duplicate(), one.duplicate(), i(52, &[2, 12, 128, 10])], &[], 1).err(),
        Some(SpecError::Malformed)
    );
    assert_eq!(freeze(&[int.duplicate(), i(43, &[2, 10])], &[], 1).err(), Some(SpecError::Malformed));
    assert_eq!(freeze(&[i(41, &[1])], &[], 1).err(), Some(SpecError::Malformed));
    assert_eq!(
        freeze(
            &[int.duplicate(), one.duplicate(), i(43, &[2, 11, 0]), i(52, &[2, 12, 134, 10, 11])],
            &[],
            1
        )
        .err(),
        Some(SpecError::DivideByZero)
    );
    assert_eq!(
        freeze(
            &[int.duplicate(), i(22, &[3, 32]), one.duplicate(), i(43, &[3, 11, 0]), i(52, &[2, 12, 128, 10, 11])],
            &[],
            1
        )
        .err(),
        Some(SpecError::TypeMismatch)
    );
    assert_eq!(
        freeze(
            &[int.duplicate(), one.duplicate(), i(43, &[2, 11, 2]), i(52, &[2, 12, 130, 10, 11])],
            &[],
            1
        )
        .err(),
        Some(SpecError::OutOfRange)
    );
}

#[test]
fn float_conversions_fold_on_bit_patterns() {
    let insts = [
        i(22, &[2, 32]),
        i(22, &[3, 64]),
        i(43, &[2, 10, 1.5f32.to_bits()]),
        i(43, &[3, 11, 0.1f64.to_bits() as u32, (0.1f64.to_bits() >> 32) as u32]),
        i(52, &[3, 12, 115, 10]),
        i(52, &[2, 13, 115, 11]),
        i(52, &[2, 14, 115, 10]),
    ];
    let out = freeze(&insts[..6], &[], 1).unwrap();
    let wide = 1.5f64.to_bits();
    assert_eq!(out[4].words, vec![3, 12, wide as u32, (wide >> 32) as u32]);
    assert_eq!(out[5].words, vec![2, 13, (0.1f64 as f32).to_bits()]);
    assert_eq!(freeze(&insts, &[], 1).err(), Some(SpecError::TypeMismatch));
}

#[test]
fn packed_strings_match_by_bytes() {
    let words = string("NonSemantic.DebugPrintf.2");
    assert!(packed_match(&words, 0, b"NonSemantic.DebugPrintf", false));
    assert!(!packed_match(&words, 0, b"NonSemantic.DebugPrintf", true));
    assert!(packed_match(&words, 0, b"NonSemantic.DebugPrintf.2", true));
    assert!(!packed_match(&words, 0, b"NonSemantic.Debugprintf", false));
    assert!(!packed_match(&words, 1, b"NonSemantic", false));
    assert!(packed_match(&string("abcd"), 0, b"abcd", true));
    assert!(!packed_match(&vec![u32::from_le_bytes(*b"abcd")], 0, b"abcd", true));
    assert!(packed_match(&vec![u32::from_le_bytes(*b"abcd")], 0, b"abcd", false));
    assert!(packed_match(&vec![], 0, b"", false));
    assert!(!packed_match(&vec![], 0, b"", true));
    assert_eq!(byte_of_word(0x0403_0201, 0), 1);
    assert_eq!(byte_of_word(0x0403_0201, 1), 2);
    assert_eq!(byte_of_word(0x0403_0201, 2), 3);
    assert_eq!(byte_of_word(0x0403_0201, 3), 4);
}

#[test]
fn debug_printf_goes_with_its_imports_and_lines() {
    let mut import = vec![5];
    import.extend(string("NonSemantic.DebugPrintf"));
    let mut glsl = vec![6];
    glsl.extend(string("GLSL.std.450"));
    let module = Module {
        header: vec![1, 2, 3, 4, 5],
        globals: vec![
            i(10, &string("SPV_KHR_non_semantic_info")),
            i(10, &string("SPV_KHR_non_semantic_info2")),
            i(11, &import),
            i(11, &glsl),
            i(8, &[1, 2, 3]),
        ],
        functions: vec![
            i(54, &[4, 6, 0, 5]),
            i(248, &[7]),
            i(8, &[1, 2, 3]),
            i(12, &[4, 8, 5, 1, 12]),
            i(12, &[4, 9, 6, 1, 12]),
            i(317, &[]),
            i(253, &[]),
            i(56, &[]),
        ],
    };
    let out = strip_debug_printf(&module);
    assert_eq!(out.header, vec![1, 2, 3, 4, 5]);
    assert_eq!(
        pairs(&out.globals),
        vec![
            (10, string("SPV_KHR_non_semantic_info2")),
            (11, glsl.clone()),
            (8, vec![1, 2, 3]),
        ]
    );
    assert_eq!(
        pairs(&out.functions),
        vec![
            (54, vec![4, 6, 0, 5]),
            (248, vec![7]),
            (12, vec![4, 9, 6, 1, 12]),
            (253, vec![]),
            (56, vec![]),
        ]
    );
}

#[test]
fn bare_push_constant_pointers_move_behind_the_structs() {
    let insts = vec![
        i(21, &[2, 32, 0]),
        i(32, &[20, 9, 2]),
        i(32, &[21, 9, 30]),
        i(32, &[22, 7, 2]),
        i(30, &[30, 2]),
        i(32, &[23, 9, 31]),
        i(30, &[31, 2, 2]),
        i(32, &[24, 9, 99]),
    ];
    let out = reorder_push_constant_pointers(&insts);
    assert_eq!(
        pairs(&out),
        vec![
            (21, vec![2, 32, 0]),
            (32, vec![21, 9, 30]),
            (32, vec![22, 7, 2]),
            (30, vec![30, 2]),
            (32, vec![23, 9, 31]),
            (30, vec![31, 2, 2]),
            (32, vec![20, 9, 2]),
            (32, vec![24, 9, 99]),
        ]
    );
}

#[test]
fn malformed_binary_instructions_are_refused() {
    assert!(decode_instructions(&vec![vec![(2 << 16) | 19, 4], vec![(1 << 16) | 253]]).is_some());
    assert!(decode_instructions(&vec![vec![(3 << 16) | 19, 4]]).is_none());
    assert!(Module::from_parts(vec![], &vec![vec![]], &vec![]).is_none());
    let m = Module::from_parts(vec![7], &vec![vec![(2 << 16) | 19, 4]], &vec![vec![(1 << 16) | 253]]).unwrap();
    assert!(m.is_wf());
    assert_eq!(m.assemble(), vec![7, (2 << 16) | 19, 4, (1 << 16) | 253]);
    let long = Module { header: vec![], globals: vec![i(0, &vec![0; 0xffff])], functions: vec![] };
    assert!(!long.is_wf());
}
