use algor::compiler::{compile, CompileError};
use algor::generator::{generate, get_operand, InstructionLocation, InvalidIdentifier, Location};
use algor::lexer::InvalidCharacter;
use algor::parser::{Instruction, NumberOrIdentifier, Program};

fn cell(opcode: u8, operand: u8) -> Location {
    Location::Instruction(InstructionLocation::new(opcode, operand))
}

fn image(cells: &[Location]) -> [Location; 100] {
    let mut code = [Location::Data(0); 100];
    for (i, location) in cells.iter().enumerate() {
        code[i] = *location;
    }
    code
}

fn name(text: &str) -> NumberOrIdentifier {
    NumberOrIdentifier::Identifier(text.into())
}

#[test]
fn generator_all_instructions() {
    let source = r#"loop ADD num
        BRA loop
        num DAT 999"#;

    let mut expected = [Location::Data(0); 100];
    expected[0] = cell(1, 2);
    expected[1] = cell(6, 0);
    expected[2] = Location::Data(999);
    assert_eq!(compile(source).unwrap(), expected);
}

#[test]
fn trivial_program_round_trip() {
    let code = compile("loop ADD one\nBRA loop\none DAT 1\n").unwrap();
    assert_eq!(code[0], cell(1, 2));
    assert_eq!(code[1], cell(6, 0));
    assert_eq!(code[2], Location::Data(1));
    for slot in 3..100 {
        assert_eq!(code[slot], Location::Data(0));
    }
}

#[test]
fn forward_reference_resolves() {
    let code = compile("BRA end\nOUT\nend HLT\n").unwrap();
    assert_eq!(code, image(&[cell(6, 2), cell(9, 2), cell(0, 0)]));
}

#[test]
fn undefined_label_fails() {
    assert_eq!(
        compile("ADD nowhere\nHLT\n"),
        Err(CompileError::InvalidIdentifier(InvalidIdentifier { identifier: "nowhere".into() }))
    );
    assert_eq!(
        compile("here BRA there\n"),
        Err(CompileError::InvalidIdentifier(InvalidIdentifier { identifier: "there".into() }))
    );
}

#[test]
fn first_undefined_label_is_reported() {
    assert_eq!(
        compile("ADD a\nSUB b\n"),
        Err(CompileError::InvalidIdentifier(InvalidIdentifier { identifier: "a".into() }))
    );
}

#[test]
fn every_opcode() {
    let source = "start HLT\nADD v\nSUB v\nSTA v\nSTO v\nLDA v\nBRA start\nBRZ start\nBRP start\nINP\nOUT\nCOB\nv DAT -5\n";
    assert_eq!(
        compile(source).unwrap(),
        image(&[
            cell(0, 0),
            cell(1, 12),
            cell(2, 12),
            cell(3, 12),
            cell(3, 12),
            cell(5, 12),
            cell(6, 0),
            cell(7, 0),
            cell(8, 0),
            cell(9, 1),
            cell(9, 2),
            cell(0, 0),
            Location::Data(-5),
        ])
    );
}

#[test]
fn number_operand_is_the_address() {
    assert_eq!(compile("ADD 5\nLDA 99").unwrap(), image(&[cell(1, 5), cell(5, 99)]));
}

#[test]
fn empty_source_is_blank_memory() {
    assert_eq!(compile("").unwrap(), [Location::Data(0); 100]);
}

#[test]
fn compile_reports_each_stage() {
    assert_eq!(
        compile("LDA 10\nSTA ?"),
        Err(CompileError::InvalidCharacter(InvalidCharacter { character: '?', line_column: (2, 5) }))
    );
    assert_eq!(compile("A DAT 1000"), Err(CompileError::NumberOutOfRange(1000)));
    assert_eq!(compile("ADD 100"), Err(CompileError::AddressOutOfRange(100)));
    assert!(matches!(compile("HLT 19"), Err(CompileError::InvalidToken(_))));
}

#[test]
fn same_program_same_image() {
    let source = "loop ADD one\nBRA loop\none DAT 1\n";
    assert_eq!(compile(source), compile(source));
}

#[test]
fn label_table_comes_before_data_names() {
    let program = Program {
        labels: vec![("x".to_string(), 0)],
        instructions: vec![Instruction::Load(name("x")), Instruction::Data("x".into(), 7)],
    };
    assert_eq!(generate(program).unwrap(), image(&[cell(5, 0), Location::Data(7)]));
}

#[test]
fn data_name_without_label_resolves_to_last_cell() {
    let program = Program {
        labels: vec![],
        instructions: vec![
            Instruction::Load(name("x")),
            Instruction::Data("x".into(), 7),
            Instruction::Data("x".into(), 8),
        ],
    };
    assert_eq!(
        generate(program).unwrap(),
        image(&[cell(5, 2), Location::Data(7), Location::Data(8)])
    );
}

#[test]
fn last_binding_of_a_label_counts() {
    let program = Program {
        labels: vec![("x".to_string(), 0), ("x".to_string(), 1)],
        instructions: vec![Instruction::Branch(name("x")), Instruction::Halt],
    };
    assert_eq!(generate(program).unwrap(), image(&[cell(6, 1), cell(0, 0)]));
}

#[test]
fn get_operand_resolves() {
    let program = Program {
        labels: vec![("top".to_string(), 0)],
        instructions: vec![Instruction::Halt, Instruction::Data("v".into(), 3)],
    };
    assert_eq!(get_operand(&Instruction::Branch(name("top")), &program), Ok(0));
    assert_eq!(get_operand(&Instruction::Add(name("v")), &program), Ok(1));
    assert_eq!(get_operand(&Instruction::Add(NumberOrIdentifier::Number(42)), &program), Ok(42));
    assert_eq!(
        get_operand(&Instruction::Add(name("w")), &program),
        Err(InvalidIdentifier { identifier: "w".into() })
    );
}

#[test]
fn full_memory() {
    let mut source = String::new();
    for _ in 0..100 {
        source.push_str("OUT\n");
    }
    assert_eq!(compile(&source).unwrap(), [cell(9, 2); 100]);
    source.push_str("HLT\n");
    assert_eq!(compile(&source).unwrap(), [cell(9, 2); 100]);
}

#[test]
fn try_from_is_generate() {
    let program = || Program {
        labels: vec![("top".to_string(), 0)],
        instructions: vec![Instruction::Branch(name("top")), Instruction::Add(name("gone"))],
    };
    assert_eq!(<[Location; 100]>::try_from(program()), generate(program()));
    assert_eq!(
        <[Location; 100]>::try_from(program()),
        Err(InvalidIdentifier { identifier: "gone".into() })
    );
    let halt = Program { labels: vec![], instructions: vec![Instruction::Halt] };
    assert_eq!(<[Location; 100]>::try_from(halt), Ok(image(&[cell(0, 0)])));
}
