use serde_arrow::bytecode::{Bytecode, Instruction, UNSET_INSTR};
use serde_arrow::compiler::layout::{CompilationOptions, Program};
use serde_arrow::linker::follow_jumps;
use serde_arrow::structure::{ListDefinition, MapDefinition, StructDefinition};

fn program_of(instructions: Vec<Instruction>) -> Program {
    let mut program = Program::new(CompilationOptions::default());
    program.structure.program = instructions;
    program
}

#[test]
fn link_defaults_fall_through() {
    let mut program = program_of(vec![
        Instruction { next: UNSET_INSTR, code: Bytecode::OuterSequenceStart },
        Instruction { next: 0, code: Bytecode::PushU8 { idx: 0 } },
        Instruction { next: UNSET_INSTR, code: Bytecode::ProgramEnd },
    ]);
    program.structure.link_defaults();
    let nexts: Vec<usize> = program.structure.program.iter().map(|i| i.get_next()).collect();
    assert_eq!(nexts, vec![1, 0, 3]);
}

#[test]
fn follow_jumps_passes_the_ends_of_unions() {
    let program = vec![
        Instruction { next: 1, code: Bytecode::PushU8 { idx: 0 } },
        Instruction { next: 2, code: Bytecode::UnionEnd },
        Instruction { next: 3, code: Bytecode::UnionEnd },
        Instruction { next: 3, code: Bytecode::ProgramEnd },
    ];
    assert_eq!(follow_jumps(&program, 0).unwrap(), 0);
    assert_eq!(follow_jumps(&program, 1).unwrap(), 3);
    assert_eq!(follow_jumps(&program, 2).unwrap(), 3);
    assert!(follow_jumps(&program, 4).is_err());
}

#[test]
fn update_jumps_skips_the_ends_of_unions() {
    let mut program = program_of(vec![
        Instruction { next: UNSET_INSTR, code: Bytecode::Variant { union_idx: 0, type_idx: 0 } },
        Instruction { next: 3, code: Bytecode::PushU8 { idx: 1 } },
        Instruction { next: 3, code: Bytecode::PushU16 { idx: 0 } },
        Instruction { next: UNSET_INSTR, code: Bytecode::UnionEnd },
        Instruction { next: 4, code: Bytecode::ProgramEnd },
    ]);
    program.structure.push_struct(StructDefinition::new());
    program.structure.structs[0].return_pc = 3;
    program.structure.large_lists.push(ListDefinition { item: 1, return_pc: 3, offset: 0 });
    program.structure.lists.push(ListDefinition { item: 1, return_pc: 3, offset: 0 });
    program.structure.maps.push(MapDefinition { key: 2, return_pc: 3 });
    program.update_jumps().unwrap();

    let nexts: Vec<usize> = program.structure.program.iter().map(|i| i.next).collect();
    assert_eq!(nexts, vec![1, 4, 4, 4, 4]);
    assert_eq!(program.structure.structs[0].return_pc, 4);
    assert_eq!(program.structure.large_lists[0].return_pc, 4);
    assert_eq!(program.structure.lists[0].return_pc, 4);
    assert_eq!(program.structure.maps[0].return_pc, 4);
    assert_eq!(program.structure.maps[0].key, 2);
}

#[test]
fn update_jumps_fails_on_a_cycle_of_ends_of_unions() {
    let mut program = program_of(vec![
        Instruction { next: UNSET_INSTR, code: Bytecode::PushU8 { idx: 0 } },
        Instruction { next: 2, code: Bytecode::UnionEnd },
        Instruction { next: 1, code: Bytecode::UnionEnd },
        Instruction { next: 3, code: Bytecode::ProgramEnd },
    ]);
    assert!(program.update_jumps().is_err());

    let mut program = program_of(vec![
        Instruction { next: 1, code: Bytecode::PushU8 { idx: 0 } },
        Instruction { next: 1, code: Bytecode::UnionEnd },
    ]);
    assert!(program.update_jumps().is_err());
    assert!(follow_jumps(&program.structure.program, 1).is_err());
}

#[test]
fn update_jumps_fails_on_a_jump_out_of_the_program() {
    let mut program = program_of(vec![
        Instruction { next: UNSET_INSTR, code: Bytecode::PushU8 { idx: 0 } },
        Instruction { next: UNSET_INSTR, code: Bytecode::UnionEnd },
    ]);
    assert!(program.update_jumps().is_err());

    let mut program = program_of(vec![Instruction { next: 0, code: Bytecode::ProgramEnd }]);
    program.structure.push_struct(StructDefinition::new());
    program.structure.structs[0].return_pc = 9;
    assert!(program.update_jumps().is_err());

    let mut program = program_of(vec![Instruction { next: 0, code: Bytecode::ProgramEnd }]);
    program.structure.lists.push(ListDefinition { item: 0, return_pc: 1, offset: 0 });
    assert!(program.update_jumps().is_err());

    let mut program = program_of(vec![Instruction { next: 0, code: Bytecode::ProgramEnd }]);
    program.structure.maps.push(MapDefinition { key: 0, return_pc: 1 });
    assert!(program.update_jumps().is_err());
}

#[test]
fn instructions_keep_their_code_when_their_successor_is_set() {
    let mut instr = Instruction::unlinked(Bytecode::PushU8 { idx: 3 });
    assert_eq!(instr.get_next(), UNSET_INSTR);
    instr.set_next(7);
    assert_eq!(instr, Instruction { next: 7, code: Bytecode::PushU8 { idx: 3 } });
}
