use rspirv::binary::Assemble;
use rspirv::dr::Builder;
use rspirv::dr::Operand;
use rspirv::spirv;

use krnl::scalar::ScalarElem;
use krnl::specialize::specialize;
use krnl::spirv::Module;

fn built() -> rspirv::dr::Module {
    let mut b = Builder::new();
    b.set_version(1, 5);
    b.capability(spirv::Capability::Shader);
    b.extension("SPV_KHR_storage_buffer_storage_class");
    let glsl = b.ext_inst_import("GLSL.std.450");
    b.memory_model(spirv::AddressingModel::Logical, spirv::MemoryModel::GLSL450);
    let file = b.string("kernel.rs");
    let void = b.type_void();
    let uint = b.type_int(32, 0);
    let long = b.type_int(64, 1);
    let block = b.type_struct(vec![uint, uint]);
    let pointer = b.type_pointer(None, spirv::StorageClass::PushConstant, block);
    let one = b.constant_u32(uint, 1);
    let big = b.constant_u64(long, 0x0123_4567_89ab_cdef);
    let push = b.variable(pointer, None, spirv::StorageClass::PushConstant, None);
    b.decorate(block, spirv::Decoration::Block, vec![]);
    b.member_decorate(block, 1, spirv::Decoration::Offset, vec![Operand::LiteralInt32(4)]);
    b.name(push, "push_consts");
    let voidf = b.type_function(void, vec![]);
    let main = b.begin_function(void, None, spirv::FunctionControl::NONE, voidf).unwrap();
    b.begin_block(None).unwrap();
    b.line(file, 3, 7);
    let sum = b.i_add(uint, None, one, one).unwrap();
    let _ = b.ext_inst(uint, None, glsl, 41, vec![Operand::IdRef(sum), Operand::IdRef(one)]).unwrap();
    let _ = big;
    b.ret().unwrap();
    b.end_function().unwrap();
    b.entry_point(spirv::ExecutionModel::GLCompute, main, "main", vec![]);
    b.execution_mode(main, spirv::ExecutionMode::LocalSize, vec![64, 1, 1]);
    b.module()
}

#[test]
fn a_module_without_specialization_comes_back_as_it_loads() {
    let words = built().assemble();
    let reloaded = rspirv::dr::load_words(&words).unwrap().assemble();
    assert_eq!(specialize(&words, 64, &[], true).unwrap(), reloaded);
    assert_eq!(Module::load(&words).unwrap().assemble(), reloaded);
}

#[test]
fn specialized_words_load_again() {
    let words = built().assemble();
    let out = specialize(&words, 64, &[ScalarElem::U32(3)], false).unwrap();
    let module = rspirv::dr::load_words(&out).unwrap();
    assert_eq!(module.assemble(), out);
    assert_eq!(module.functions.len(), 1);
    let body = &module.functions[0].blocks[0].instructions;
    assert!(body.iter().all(|i| i.class.opcode != spirv::Op::Line));
    assert!(body.iter().any(|i| i.class.opcode == spirv::Op::ExtInst));
    assert_eq!(module.ext_inst_imports.len(), 1);
}

#[test]
fn the_loader_puts_instructions_in_layout_order() {
    let module = built();
    let mut scrambled = module.clone();
    scrambled.annotations.reverse();
    let words = scrambled.assemble();
    let loaded = Module::load(&words).unwrap();
    assert_eq!(loaded.header.len(), 5);
    assert_eq!(loaded.functions.len(), 7);
    assert_eq!(loaded.functions[0].opcode, 54);
    assert_eq!(loaded.functions.last().unwrap().opcode, 56);
    assert!(loaded.globals.iter().all(|i| i.opcode != 54));
}

fn next(state: &mut u64) -> u32 {
    *state ^= *state << 13;
    *state ^= *state >> 7;
    *state ^= *state << 17;
    (*state >> 16) as u32
}

fn word(state: &mut u64) -> u32 {
    match next(state) % 6 {
        0 => next(state) % 8,
        1 => next(state) % 64,
        2 => next(state) % 6000,
        3 => u32::from_le_bytes(*b"ab\0c"),
        4 => u32::from_le_bytes(*b"GLSL"),
        _ => next(state),
    }
}

#[test]
fn loading_framed_words_never_panics() {
    let mut state: u64 = 0x1234_5678_9abc_def1;
    let mut loaded = 0;
    for round in 0..60_000u32 {
        let mut words = vec![0x0723_0203, 0x0001_0500, 0, 100, 0];
        let count = 1 + next(&mut state) % 4;
        for _ in 0..count {
            let opcode = match next(&mut state) % 4 {
                0 => next(&mut state) % 420,
                1 => [21, 22, 43, 50, 52, 251, 12, 11, 10, 71, 5, 6, 15, 16][(next(&mut state) % 14) as usize],
                2 => 4000 + next(&mut state) % 2500,
                _ => next(&mut state) % 0x1_0000,
            };
            let len = next(&mut state) % 7;
            let mut operands: Vec<u32> = (0..len).map(|_| word(&mut state)).collect();
            if opcode == 52 && operands.len() >= 3 {
                let embedded = operands[2] % 0x1_0000;
                if [43, 50, 52, 251].contains(&embedded) && round % 2 == 0 {
                    operands[2] = 128;
                }
            }
            words.push(((operands.len() as u32 + 1) << 16) | opcode);
            words.extend(operands);
        }
        if round % 7 == 0 {
            let cut = next(&mut state) as usize % words.len();
            words.truncate(cut);
        }
        if Module::load(&words).is_some() {
            loaded += 1;
        }
    }
    assert!(loaded > 100);
}
