//! The machine: five registers and a hundred memory cells, run one
//! instruction at a time.
//!
//! A step fetches the cell at the program counter. A cell that holds the
//! number zero is memory that no program has touched: the machine halts
//! there. A cell that holds another number is data that execution has run
//! into, which is a fault. An instruction is copied into the instruction and
//! address registers and carried out:
//!
//! | opcode | mnemonic | effect |
//! |---|---|---|
//! | 0 | `HLT` | halts; the program counter stays |
//! | 1 | `ADD` | adds the number at the address to the accumulator |
//! | 2 | `SUB` | subtracts the number at the address from the accumulator |
//! | 3 | `STA` | stores the accumulator at the address |
//! | 5 | `LDA` | loads the number at the address into the accumulator |
//! | 6 | `BRA` | continues at the address |
//! | 7 | `BRZ` | continues at the address if the accumulator is zero |
//! | 8 | `BRP` | continues at the address if the accumulator is not negative |
//! | 9 | `INP`, `OUT` | address 1 asks for input; any other puts out the accumulator |
//!
//! Whatever does not halt, fail or branch moves the program counter to the
//! next cell, and from the last cell to the first. Sums and differences wrap
//! around in sixteen bits.

use vstd::prelude::*;
use crate::generator::{cell, valid_image, Location};
use crate::parser::MEMORY_SIZE;
use crate::text::{decimal, push_decimal};

verus! {

/// What a step of the machine asks of its driver.
#[derive(PartialEq, Eq, Debug)]
pub enum Event {
    /// Nothing: the next step can follow.
    Continue,
    /// The program has ended.
    Halt,
    /// A number is to be put into the accumulator before the next step.
    Input,
    /// This text, the accumulator in base ten, is to be shown.
    Output(String),
}

/// The mathematical value of an [`Event`].
pub enum EventView {
    Continue,
    Halt,
    Input,
    Output(Seq<char>),
}

impl View for Event {
    type V = EventView;

    open spec fn view(&self) -> EventView {
        match self {
            Event::Continue => EventView::Continue,
            Event::Halt => EventView::Halt,
            Event::Input => EventView::Input,
            Event::Output(text) => EventView::Output(text@),
        }
    }
}

/// A fault of a running program.
#[derive(Copy, Clone, PartialEq, Eq, Structural, Debug)]
pub enum InvalidLocation {
    /// The program counter has reached a cell that holds a number other than
    /// zero.
    ExpectedInstruction,
    /// The address of an instruction that works on a number holds an
    /// instruction.
    ExpectedData,
}

/// The state of the machine: the program counter, the accumulator, the
/// registers that hold the opcode and the address of the instruction fetched
/// last, the memory data register, and memory.
#[derive(PartialEq, Eq, Debug)]
pub struct Computer {
    pub program_counter: u8,
    pub accumulator: i16,
    pub current_instruction_register: u8,
    pub memory_address_register: u8,
    pub memory_data_register: i16,
    pub memory: [Location; 100],
}

/// The mathematical value of a [`Computer`]: its registers, and its memory
/// as a sequence of cells.
pub struct ComputerView {
    pub program_counter: u8,
    pub accumulator: i16,
    pub current_instruction_register: u8,
    pub memory_address_register: u8,
    pub memory_data_register: i16,
    pub memory: Seq<Location>,
}

impl View for Computer {
    type V = ComputerView;

    open spec fn view(&self) -> ComputerView {
        ComputerView {
            program_counter: self.program_counter,
            accumulator: self.accumulator,
            current_instruction_register: self.current_instruction_register,
            memory_address_register: self.memory_address_register,
            memory_data_register: self.memory_data_register,
            memory: self.memory@,
        }
    }
}

/// The sixteen-bit signed number that `value` wraps around to.
pub open spec fn wrapped(value: int) -> i16 {
    if value > i16::MAX {
        (value - 0x1_0000) as i16
    } else if value < i16::MIN {
        (value + 0x1_0000) as i16
    } else {
        value as i16
    }
}

/// The cell behind `counter`: the next one, and the first behind the last.
pub open spec fn next_cell(counter: u8) -> u8 {
    if counter + 1 < MEMORY_SIZE {
        (counter + 1) as u8
    } else {
        0
    }
}

/// The outcome of a step: an event, or a fault.
pub type Outcome = Result<EventView, InvalidLocation>;

impl ComputerView {
    /// The machine can run: its program counter is inside memory, and so is
    /// the address of every instruction in memory, whose opcode is at most 9.
    pub open spec fn wf(self) -> bool {
        &&& self.program_counter < MEMORY_SIZE
        &&& valid_image(self.memory)
    }

    /// The machine with all registers zero and every cell holding zero.
    pub open spec fn blank() -> ComputerView {
        ComputerView {
            program_counter: 0,
            accumulator: 0,
            current_instruction_register: 0,
            memory_address_register: 0,
            memory_data_register: 0,
            memory: Seq::new(MEMORY_SIZE as nat, |i: int| Location::Data(0)),
        }
    }

    /// The machine with all registers zero and its memory as it is.
    pub open spec fn reset(self) -> ComputerView {
        ComputerView {
            program_counter: 0,
            accumulator: 0,
            current_instruction_register: 0,
            memory_address_register: 0,
            memory_data_register: 0,
            memory: self.memory,
        }
    }

    /// The machine after the instruction with this opcode and address has
    /// been fetched into the registers.
    pub open spec fn fetched(self, opcode: u8, operand: u8) -> ComputerView {
        ComputerView {
            current_instruction_register: opcode,
            memory_address_register: operand,
            ..self
        }
    }

    /// The machine with its program counter at the next cell.
    pub open spec fn advanced(self) -> ComputerView {
        ComputerView { program_counter: next_cell(self.program_counter), ..self }
    }

    /// The machine after an instruction that works on the number `number`
    /// at address `operand`.
    pub open spec fn computed(self, opcode: u8, operand: u8, number: i16) -> ComputerView {
        if opcode == 1 {
            ComputerView { accumulator: wrapped(self.accumulator + number), ..self }
        } else if opcode == 2 {
            ComputerView { accumulator: wrapped(self.accumulator - number), ..self }
        } else if opcode == 3 {
            ComputerView {
                memory: self.memory.update(operand as int, Location::Data(self.accumulator)),
                ..self
            }
        } else {
            ComputerView { accumulator: number, ..self }
        }
    }

    /// Whether a branch with this opcode is taken.
    pub open spec fn branches(self, opcode: u8) -> bool {
        opcode == 6 || (opcode == 7 && self.accumulator == 0) || (opcode == 8 && self.accumulator
            >= 0)
    }

    /// One step: the machine after it, and the event or the fault that it
    /// ends with.
    pub open spec fn step(self) -> (ComputerView, Outcome) {
        match self.memory[self.program_counter as int] {
            Location::Data(number) => if number == 0 {
                (self, Ok(EventView::Halt))
            } else {
                (self, Err(InvalidLocation::ExpectedInstruction))
            },
            Location::Instruction(instruction) => {
                let opcode = instruction.opcode;
                let operand = instruction.operand;
                let fetched = self.fetched(opcode, operand);
                if opcode == 0 {
                    (fetched, Ok(EventView::Halt))
                } else if opcode == 1 || opcode == 2 || opcode == 3 || opcode == 5 {
                    match self.memory[operand as int] {
                        Location::Data(number) => (
                            fetched.computed(opcode, operand, number).advanced(),
                            Ok(EventView::Continue),
                        ),
                        Location::Instruction(_) => (
                            fetched,
                            Err(InvalidLocation::ExpectedData),
                        ),
                    }
                } else if opcode == 6 || opcode == 7 || opcode == 8 {
                    if self.branches(opcode) {
                        (
                            ComputerView { program_counter: operand, ..fetched },
                            Ok(EventView::Continue),
                        )
                    } else {
                        (fetched.advanced(), Ok(EventView::Continue))
                    }
                } else if opcode == 9 {
                    if operand == 1 {
                        (fetched.advanced(), Ok(EventView::Input))
                    } else {
                        (
                            fetched.advanced(),
                            Ok(EventView::Output(decimal(self.accumulator as int))),
                        )
                    }
                } else {
                    (fetched.advanced(), Ok(EventView::Continue))
                }
            },
        }
    }
}

/// The value of a step's result.
pub open spec fn outcome(result: Result<Event, InvalidLocation>) -> Outcome {
    match result {
        Ok(event) => Ok(event@),
        Err(e) => Err(e),
    }
}

impl Clone for Computer {
    fn clone(&self) -> (copy: Self)
        ensures
            copy == *self,
    {
        Self {
            program_counter: self.program_counter,
            accumulator: self.accumulator,
            current_instruction_register: self.current_instruction_register,
            memory_address_register: self.memory_address_register,
            memory_data_register: self.memory_data_register,
            memory: self.memory,
        }
    }
}

impl Default for Computer {
    /// The machine with all registers zero and every cell holding zero.
    fn default() -> (computer: Self)
        ensures
            computer@ == ComputerView::blank(),
            computer@.wf(),
    {
        let computer = Self {
            program_counter: 0,
            accumulator: 0,
            current_instruction_register: 0,
            memory_address_register: 0,
            memory_data_register: 0,
            memory: [Location::Data(0);100],
        };
        assert(computer@.memory == ComputerView::blank().memory);
        computer
    }
}

impl Computer {
    /// Sets all registers to zero and leaves memory as it is.
    pub fn reset(&mut self)
        ensures
            final(self)@ == old(self)@.reset(),
    {
        self.program_counter = 0;
        self.accumulator = 0;
        self.current_instruction_register = 0;
        self.memory_address_register = 0;
        self.memory_data_register = 0;
    }

    /// Replaces the whole of memory by `image` and leaves the registers as
    /// they are.
    pub fn load(&mut self, image: [Location; 100])
        ensures
            final(self)@ == (ComputerView { memory: image@, ..old(self)@ }),
    {
        self.memory = image;
    }

    /// Puts `value` into the accumulator: the answer to an
    /// [`Event::Input`].
    pub fn set_input(&mut self, value: i16)
        ensures
            final(self)@ == (ComputerView { accumulator: value, ..old(self)@ }),
    {
        self.accumulator = value;
    }

    /// Whether the machine can run: whether its program counter and the
    /// instructions in its memory are such that [`Computer::step`] may be
    /// called.
    pub fn can_run(&self) -> (r: bool)
        ensures
            r == self@.wf(),
    {
        if self.program_counter as usize >= MEMORY_SIZE {
            return false;
        }
        let mut i: usize = 0;
        while i < MEMORY_SIZE
            invariant
                i <= MEMORY_SIZE,
                self.program_counter < MEMORY_SIZE,
                forall|j: int| 0 <= j < i ==> (#[trigger] self.memory@[j]).valid(),
            decreases MEMORY_SIZE - i,
        {
            match self.memory[i] {
                Location::Instruction(instruction) => {
                    if instruction.opcode > 9 || instruction.operand as usize >= MEMORY_SIZE {
                        return false;
                    }
                },
                Location::Data(_) => {},
            }
            i += 1;
        }
        true
    }

    /// Moves the program counter to the next cell.
    fn advance(&mut self)
        requires
            old(self).program_counter < MEMORY_SIZE,
        ensures
            final(self)@ == old(self)@.advanced(),
    {
        if self.program_counter + 1 < 100 {
            self.program_counter += 1;
        } else {
            self.program_counter = 0;
        }
    }

    /// Runs one instruction.
    pub fn step(&mut self) -> (result: Result<Event, InvalidLocation>)
        requires
            old(self)@.wf(),
        ensures
            (final(self)@, outcome(result)) == old(self)@.step(),
            final(self)@.wf(),
    {
        let instruction = match self.memory[self.program_counter as usize] {
            Location::Instruction(instruction) => instruction,
            Location::Data(number) => {
                if number == 0 {
                    return Ok(Event::Halt);
                } else {
                    return Err(InvalidLocation::ExpectedInstruction);
                }
            },
        };
        self.current_instruction_register = instruction.opcode;
        self.memory_address_register = instruction.operand;
        let opcode = instruction.opcode;
        if opcode == 0 {
            return Ok(Event::Halt);
        } else if opcode == 1 || opcode == 2 || opcode == 3 || opcode == 5 {
            let address = instruction.operand as usize;
            match self.memory[address] {
                Location::Data(number) => {
                    if opcode == 1 {
                        self.accumulator = self.accumulator.wrapping_add(number);
                    } else if opcode == 2 {
                        self.accumulator = self.accumulator.wrapping_sub(number);
                    } else if opcode == 3 {
                        self.memory[address] = Location::Data(self.accumulator);
                    } else {
                        self.accumulator = number;
                    }
                },
                Location::Instruction(_) => {
                    return Err(InvalidLocation::ExpectedData);
                },
            }
        } else if opcode == 6 || opcode == 7 || opcode == 8 {
            let taken = opcode == 6 || (opcode == 7 && self.accumulator == 0) || (opcode == 8
                && self.accumulator >= 0);
            if taken {
                self.program_counter = instruction.operand;
                return Ok(Event::Continue);
            }
        } else if opcode == 9 {
            self.advance();
            if instruction.operand == 1 {
                return Ok(Event::Input);
            } else {
                let mut text = String::new();
                push_decimal(&mut text, self.accumulator as i64);
                assert(text@ == decimal(self.accumulator as int)) by {
                }
                return Ok(Event::Output(text));
            }
        }
        self.advance();
        Ok(Event::Continue)
    }
}


/// To step a machine that stands at `HLT` is to halt: the instruction is
/// fetched into its two registers, nothing else changes, and another step
/// from there does the same again.
pub proof fn halt_is_idempotent(computer: ComputerView)
    requires
        computer.wf(),
        computer.memory[computer.program_counter as int] == cell(0, 0),
    ensures
        computer.step() == (computer.fetched(0, 0), Ok::<EventView, InvalidLocation>(
            EventView::Halt,
        )),
        computer.step().0.step() == computer.step(),
{
}

/// A machine whose program counter has reached a number other than zero
/// fails, and stays as it is.
pub proof fn data_is_no_instruction(computer: ComputerView, number: i16)
    requires
        computer.wf(),
        computer.memory[computer.program_counter as int] == Location::Data(number),
        number != 0,
    ensures
        computer.step() == (computer, Err::<EventView, InvalidLocation>(
            InvalidLocation::ExpectedInstruction,
        )),
{
}

/// A step leaves a machine that can run as one that can run.
pub proof fn step_keeps_wf(computer: ComputerView)
    requires
        computer.wf(),
    ensures
        computer.step().0.wf(),
{
}

} // verus!
