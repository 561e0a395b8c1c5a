use algor::compiler::compile;
use algor::generator::{InstructionLocation, Location};
use algor::vm::{Computer, Event, InvalidLocation};

fn cell(opcode: u8, operand: u8) -> Location {
    Location::Instruction(InstructionLocation::new(opcode, operand))
}

fn computer_with(cells: &[Location]) -> Computer {
    let mut computer = Computer::default();
    for (i, location) in cells.iter().enumerate() {
        computer.memory[i] = *location;
    }
    computer
}

fn run(source: &str) -> Computer {
    let mut computer = Computer::default();
    computer.load(compile(source).unwrap());
    computer
}

#[test]
fn virtual_machine_virtual_machine() {
    let source = r#"test OUT
        BRA test"#;

    let mut computer = Computer::default();
    computer.memory = compile(source).unwrap();

    computer.step().unwrap();
    computer.step().unwrap();
    computer.step().unwrap();

    let mut expected = Computer::default();
    expected.memory = compile(source).unwrap();
    expected.program_counter = 1;
    expected.current_instruction_register = 9;
    expected.memory_address_register = 2;
    assert_eq!(computer, expected);
}

#[test]
fn vm_virtual_machine() {
    let source = r#"test OUT
        BRA test"#;

    let mut computer = Computer::default();
    computer.memory = compile(source).unwrap();

    assert_eq!(computer.step(), Ok(Event::Output("0".into())));
    assert_eq!(computer.program_counter, 1);
    assert_eq!(computer.step(), Ok(Event::Continue));
    assert_eq!(computer.program_counter, 0);
    assert_eq!(computer.step(), Ok(Event::Output("0".into())));
    assert_eq!(computer.accumulator, 0);
}

#[test]
fn default_is_blank() {
    let computer = Computer::default();
    assert_eq!(computer.program_counter, 0);
    assert_eq!(computer.accumulator, 0);
    assert_eq!(computer.current_instruction_register, 0);
    assert_eq!(computer.memory_address_register, 0);
    assert_eq!(computer.memory_data_register, 0);
    assert_eq!(computer.memory, [Location::Data(0); 100]);
}

#[test]
fn blank_memory_halts() {
    let mut computer = Computer::default();
    assert_eq!(computer.step(), Ok(Event::Halt));
    assert_eq!(computer, Computer::default());
}

#[test]
fn halt_is_idempotent() {
    let mut computer = computer_with(&[cell(5, 2), cell(0, 0), Location::Data(7)]);
    assert_eq!(computer.step(), Ok(Event::Continue));
    computer.current_instruction_register = 5;
    computer.memory_address_register = 2;
    computer.memory_data_register = 3;
    assert_eq!(computer.step(), Ok(Event::Halt));
    assert_eq!(computer.program_counter, 1);
    assert_eq!(computer.accumulator, 7);
    assert_eq!(computer.memory_data_register, 3);
    assert_eq!(computer.current_instruction_register, 0);
    assert_eq!(computer.memory_address_register, 0);
    assert_eq!(computer.step(), Ok(Event::Halt));
    assert_eq!(computer.program_counter, 1);
    assert_eq!(computer.accumulator, 7);
}

#[test]
fn falling_into_data_is_a_fault() {
    let mut computer = run("LDA x\nx DAT 5\n");
    assert_eq!(computer.step(), Ok(Event::Continue));
    assert_eq!(computer.accumulator, 5);
    assert_eq!(computer.step(), Err(InvalidLocation::ExpectedInstruction));
    assert_eq!(computer.program_counter, 1);
    assert_eq!(computer.current_instruction_register, 5);
    assert_eq!(computer.memory_address_register, 1);
}

#[test]
fn operand_must_be_data() {
    let mut computer = run("here ADD here\n");
    assert_eq!(computer.step(), Err(InvalidLocation::ExpectedData));
    assert_eq!(computer.program_counter, 0);
    assert_eq!(computer.accumulator, 0);
    assert_eq!(computer.current_instruction_register, 1);
    assert_eq!(computer.memory_address_register, 0);
}

#[test]
fn add_and_subtract() {
    let mut computer = run("LDA a\nADD b\nSUB c\nHLT\na DAT 10\nb DAT 32\nc DAT 50\n");
    assert_eq!(computer.step(), Ok(Event::Continue));
    assert_eq!(computer.accumulator, 10);
    assert_eq!(computer.step(), Ok(Event::Continue));
    assert_eq!(computer.accumulator, 42);
    assert_eq!(computer.step(), Ok(Event::Continue));
    assert_eq!(computer.accumulator, -8);
    assert_eq!(computer.program_counter, 3);
    assert_eq!(computer.step(), Ok(Event::Halt));
}

#[test]
fn store_overwrites_the_cell() {
    let mut computer = run("LDA a\nSTA b\nHLT\na DAT 9\nb DAT\n");
    computer.step().unwrap();
    computer.step().unwrap();
    assert_eq!(computer.memory[4], Location::Data(9));
    assert_eq!(computer.memory[3], Location::Data(9));
    assert_eq!(computer.program_counter, 2);
}

#[test]
fn arithmetic_wraps_in_sixteen_bits() {
    let mut computer = computer_with(&[cell(1, 3), cell(2, 3), cell(2, 4), Location::Data(1), Location::Data(-32768)]);
    computer.accumulator = 32767;
    assert_eq!(computer.step(), Ok(Event::Continue));
    assert_eq!(computer.accumulator, -32768);
    assert_eq!(computer.step(), Ok(Event::Continue));
    assert_eq!(computer.accumulator, 32767);
    assert_eq!(computer.step(), Ok(Event::Continue));
    assert_eq!(computer.accumulator, -1);
}

#[test]
fn branches() {
    let mut computer = computer_with(&[cell(7, 5), cell(8, 5), cell(6, 9)]);
    computer.accumulator = -1;
    assert_eq!(computer.step(), Ok(Event::Continue));
    assert_eq!(computer.program_counter, 1);
    assert_eq!(computer.step(), Ok(Event::Continue));
    assert_eq!(computer.program_counter, 2);
    assert_eq!(computer.step(), Ok(Event::Continue));
    assert_eq!(computer.program_counter, 9);

    let mut computer = computer_with(&[cell(7, 5)]);
    assert_eq!(computer.step(), Ok(Event::Continue));
    assert_eq!(computer.program_counter, 5);

    let mut computer = computer_with(&[cell(8, 7)]);
    computer.accumulator = 3;
    assert_eq!(computer.step(), Ok(Event::Continue));
    assert_eq!(computer.program_counter, 7);
    assert_eq!(computer.current_instruction_register, 8);
    assert_eq!(computer.memory_address_register, 7);

    let mut computer = computer_with(&[cell(7, 5)]);
    computer.accumulator = 3;
    assert_eq!(computer.step(), Ok(Event::Continue));
    assert_eq!(computer.program_counter, 1);
}

#[test]
fn input_and_output() {
    let mut computer = run("INP\nOUT\nHLT\n");
    assert_eq!(computer.step(), Ok(Event::Input));
    assert_eq!(computer.program_counter, 1);
    computer.set_input(-45);
    assert_eq!(computer.step(), Ok(Event::Output("-45".into())));
    assert_eq!(computer.program_counter, 2);
    assert_eq!(computer.step(), Ok(Event::Halt));
}

#[test]
fn output_renders_decimal() {
    for (value, text) in [(0, "0"), (7, "7"), (10, "10"), (999, "999"), (-1, "-1"), (32767, "32767"), (-32768, "-32768")] {
        let mut computer = computer_with(&[cell(9, 2)]);
        computer.accumulator = value;
        assert_eq!(computer.step(), Ok(Event::Output(text.into())));
    }
}

#[test]
fn opcode_nine_with_another_address_puts_out() {
    let mut computer = computer_with(&[cell(9, 0)]);
    computer.accumulator = 12;
    assert_eq!(computer.step(), Ok(Event::Output("12".into())));
}

#[test]
fn unused_opcode_moves_on() {
    let mut computer = computer_with(&[cell(4, 50)]);
    computer.accumulator = 12;
    assert_eq!(computer.step(), Ok(Event::Continue));
    assert_eq!(computer.program_counter, 1);
    assert_eq!(computer.accumulator, 12);
    assert_eq!(computer.current_instruction_register, 4);
    assert_eq!(computer.memory_address_register, 50);
}

#[test]
fn program_counter_wraps_behind_the_last_cell() {
    let mut computer = Computer::default();
    computer.memory[99] = cell(9, 2);
    computer.program_counter = 99;
    assert_eq!(computer.step(), Ok(Event::Output("0".into())));
    assert_eq!(computer.program_counter, 0);

    let mut computer = Computer::default();
    computer.memory[99] = cell(5, 0);
    computer.program_counter = 99;
    assert_eq!(computer.step(), Ok(Event::Continue));
    assert_eq!(computer.program_counter, 0);
}

#[test]
fn reset_keeps_memory() {
    let mut computer = run("LDA x\nOUT\nx DAT 5\n");
    computer.step().unwrap();
    computer.step().unwrap();
    computer.memory_data_register = 4;
    let memory = computer.memory;
    computer.reset();
    let mut expected = Computer::default();
    expected.memory = memory;
    assert_eq!(computer, expected);
}

#[test]
fn load_keeps_registers() {
    let mut computer = Computer::default();
    computer.accumulator = 5;
    computer.program_counter = 3;
    let code = compile("OUT\n").unwrap();
    computer.load(code);
    assert_eq!(computer.memory, code);
    assert_eq!(computer.accumulator, 5);
    assert_eq!(computer.program_counter, 3);
}

#[test]
fn countdown_runs_to_halt() {
    let source = "LDA n\nloop OUT\nSUB one\nBRP loop\nHLT\nn DAT 2\none DAT 1\n";
    let mut computer = run(source);
    let mut shown: Vec<String> = Vec::new();
    let mut steps = 0;
    loop {
        steps += 1;
        assert!(steps < 100);
        match computer.step().unwrap() {
            Event::Halt => break,
            Event::Output(text) => shown.push(text),
            Event::Continue => {}
            Event::Input => panic!("no input in this program"),
        }
    }
    assert_eq!(shown, vec!["2", "1", "0"]);
    assert_eq!(computer.accumulator, -1);
}

#[test]
fn can_run_checks_the_machine() {
    assert!(Computer::default().can_run());
    assert!(run("LDA x\nOUT\nx DAT 5\n").can_run());

    let mut computer = Computer::default();
    computer.program_counter = 100;
    assert!(!computer.can_run());

    let mut computer = Computer::default();
    computer.memory[50] = cell(10, 0);
    assert!(!computer.can_run());

    let mut computer = Computer::default();
    computer.memory[99] = cell(1, 100);
    assert!(!computer.can_run());

    let mut computer = Computer::default();
    computer.memory[99] = cell(9, 99);
    computer.program_counter = 99;
    assert!(computer.can_run());
}
