//! The code generator: a program to the memory image that the machine runs.
//!
//! Every instruction becomes the cell of its slot: an operation becomes its
//! opcode and the address of its operand, a `DAT` statement the number it
//! holds. The cells behind the program hold the number zero. Memory has a
//! hundred slots: an instruction behind the hundredth has none, and is left
//! out.
//!
//! An operand that is a number is the address itself. An operand that is an
//! identifier is the slot that the label table binds the name to; a name
//! that the table lacks is the name of the last `DAT` statement that carries
//! it; and a name that is neither makes the generation fail.

use vstd::prelude::*;
use crate::parser::{
    instruction_views, label_views, lookup, Instruction, InstructionView, NumberOrIdentifier,
    OperandView, Program, ProgramView, MEMORY_SIZE,
};

verus! {

/// A machine instruction: an opcode from 0 to 9 and an address from 0 to 99.
#[derive(Copy, Clone, PartialEq, Eq, Structural, Debug)]
pub struct InstructionLocation {
    pub opcode: u8,
    pub operand: u8,
}

impl InstructionLocation {
    pub fn new(opcode: u8, operand: u8) -> (location: Self)
        ensures
            location == (InstructionLocation { opcode, operand }),
    {
        Self { opcode, operand }
    }
}

/// What a memory cell holds: an instruction, or a number.
#[derive(Copy, Clone, PartialEq, Eq, Structural, Debug)]
pub enum Location {
    Instruction(InstructionLocation),
    /// A number, by convention between -999 and 999.
    Data(i16),
}

impl Location {
    /// The cell is one that the machine can run: a number, or an instruction
    /// with an opcode up to 9 and an address inside memory.
    pub open spec fn valid(self) -> bool {
        self matches Location::Instruction(instruction) ==> instruction.opcode <= 9
            && instruction.operand < MEMORY_SIZE
    }
}

/// A memory image: a hundred cells, each of which the machine can run.
pub open spec fn valid_image(cells: Seq<Location>) -> bool {
    &&& cells.len() == MEMORY_SIZE
    &&& forall|i: int| 0 <= i < cells.len() ==> (#[trigger] cells[i]).valid()
}

/// An operand names something that the program does not declare.
#[derive(PartialEq, Eq, Debug)]
pub struct InvalidIdentifier {
    pub identifier: String,
}

/// The number of slots that a program of `length` instructions takes.
pub open spec fn slots(length: nat) -> int {
    if length <= MEMORY_SIZE {
        length as int
    } else {
        MEMORY_SIZE as int
    }
}

/// The slot of the last `DAT` statement named `name` among the first `n`
/// instructions.
pub open spec fn data_slot(instructions: Seq<InstructionView>, name: Seq<char>, n: int) -> Option<
    u8,
>
    decreases n,
{
    if n <= 0 || n > instructions.len() {
        None
    } else if instructions[n - 1] matches InstructionView::Data(label, _) && label == name {
        Some((n - 1) as u8)
    } else {
        data_slot(instructions, name, n - 1)
    }
}

/// The slot that `name` stands for in `program`: the one that the label
/// table binds it to, or else that of the last `DAT` statement of that name
/// that has a slot.
pub open spec fn resolve(program: ProgramView, name: Seq<char>) -> Option<u8> {
    match lookup(program.labels, name) {
        Some(slot) => Some(slot),
        None => data_slot(program.instructions, name, slots(program.instructions.len())),
    }
}

/// The address that `operand` stands for, or the name that stands for none.
/// A number is taken as it is, cut to eight bits.
pub open spec fn address(program: ProgramView, operand: OperandView) -> Result<u8, Seq<char>> {
    match operand {
        OperandView::Number(number) => Ok(number as u8),
        OperandView::Identifier(name) => match resolve(program, name) {
            Some(slot) => Ok(slot),
            None => Err(name),
        },
    }
}

/// The opcode of an instruction: 0 for `HLT`, 1 for `ADD`, 2 for `SUB`, 3
/// for `STA`, 5 for `LDA`, 6 for `BRA`, 7 for `BRZ`, 8 for `BRP`, 9 for `INP`
/// and `OUT`. No instruction has opcode 4. A `DAT` statement has none: it
/// counts as 0 here.
pub open spec fn opcode(instruction: InstructionView) -> u8 {
    match instruction {
        InstructionView::Halt => 0,
        InstructionView::Add(_) => 1,
        InstructionView::Sub(_) => 2,
        InstructionView::Store(_) => 3,
        InstructionView::Load(_) => 5,
        InstructionView::Branch(_) => 6,
        InstructionView::BranchZero(_) => 7,
        InstructionView::BranchPositive(_) => 8,
        InstructionView::Input => 9,
        InstructionView::Output => 9,
        InstructionView::Data(_, _) => 0,
    }
}

/// The cell that `instruction` becomes, or the name in its operand that
/// stands for no slot.
pub open spec fn encode(program: ProgramView, instruction: InstructionView) -> Result<
    Location,
    Seq<char>,
> {
    match instruction {
        InstructionView::Halt => Ok(cell(0, 0)),
        InstructionView::Input => Ok(cell(9, 1)),
        InstructionView::Output => Ok(cell(9, 2)),
        InstructionView::Data(_, number) => Ok(Location::Data(number)),
        _ => match address(program, instruction.operand()->0) {
            Ok(slot) => Ok(cell(opcode(instruction), slot)),
            Err(name) => Err(name),
        },
    }
}

/// The cell that holds the instruction with this opcode and address.
pub open spec fn cell(opcode: u8, operand: u8) -> Location {
    Location::Instruction(InstructionLocation { opcode, operand })
}

/// The cells of the first `n` instructions, or the name that the first
/// instruction with an unknown name holds.
pub open spec fn cells(program: ProgramView, n: int) -> Result<Seq<Location>, Seq<char>>
    decreases n,
{
    if n <= 0 {
        Ok(Seq::empty())
    } else {
        match cells(program, n - 1) {
            Err(name) => Err(name),
            Ok(before) => match encode(program, program.instructions[n - 1]) {
                Ok(location) => Ok(before.push(location)),
                Err(name) => Err(name),
            },
        }
    }
}

/// The memory image of `program`: the cells of the instructions that have a
/// slot, then zeros up to the size of memory; or the first unknown name in
/// an instruction that has a slot.
pub open spec fn generate_spec(program: ProgramView) -> Result<Seq<Location>, Seq<char>> {
    let used = slots(program.instructions.len());
    match cells(program, used) {
        Ok(code) => Ok(code + Seq::new((MEMORY_SIZE - used) as nat, |i: int| Location::Data(0))),
        Err(name) => Err(name),
    }
}

/// The value of a generator's result.
pub open spec fn image_view(result: Result<[Location; 100], InvalidIdentifier>) -> Result<
    Seq<Location>,
    Seq<char>,
> {
    match result {
        Ok(image) => Ok(image@),
        Err(e) => Err(e.identifier@),
    }
}

/// The slot that the label table binds `name` to.
fn find_label(labels: &Vec<(String, u8)>, name: &String) -> (slot: Option<u8>)
    ensures
        slot == lookup(label_views(labels@), name@),
{
    let ghost views = label_views(labels@);
    let mut i = labels.len();
    assert(views.take(i as int) == views);
    while i > 0
        invariant
            i <= labels.len(),
            views == label_views(labels@),
            lookup(views, name@) == lookup(views.take(i as int), name@),
        decreases i,
    {
        proof {
            let front = views.take(i as int);
            assert(front.drop_last() == views.take(i - 1));
        }
        if labels[i - 1].0 == *name {
            return Some(labels[i - 1].1);
        }
        i -= 1;
    }
    None
}

/// The number of slots that a program of `length` instructions takes.
fn used_slots(length: usize) -> (used: usize)
    ensures
        used == slots(length as nat),
{
    if length <= MEMORY_SIZE {
        length
    } else {
        MEMORY_SIZE
    }
}

/// The slot of the last `DAT` statement named `name` that has a slot.
fn find_data(instructions: &Vec<Instruction>, name: &String) -> (slot: Option<u8>)
    ensures
        slot == data_slot(
            instruction_views(instructions@),
            name@,
            slots(instructions@.len()),
        ),
{
    let ghost views = instruction_views(instructions@);
    let used = used_slots(instructions.len());
    let mut slot: Option<u8> = None;
    let mut i: usize = 0;
    while i < used
        invariant
            i <= used <= instructions.len(),
            used <= MEMORY_SIZE,
            views == instruction_views(instructions@),
            slot == data_slot(views, name@, i as int),
        decreases used - i,
    {
        match &instructions[i] {
            Instruction::Data(label, _) => {
                if *label == *name {
                    slot = Some(i as u8);
                }
            },
            _ => {},
        }
        i += 1;
    }
    slot
}

/// The address that the operand of `instruction` stands for: the number it
/// holds, or the slot that its name stands for in `program`.
pub fn get_operand(instruction: &Instruction, program: &Program) -> (result: Result<
    u8,
    InvalidIdentifier,
>)
    requires
        instruction@.operand() is Some,
    ensures
        match address(program@, instruction@.operand()->0) {
            Ok(slot) => result == Ok::<u8, InvalidIdentifier>(slot),
            Err(name) => result matches Err(e) && e.identifier@ == name,
        },
{
    let operand = match instruction {
        Instruction::Add(operand)
        | Instruction::Sub(operand)
        | Instruction::Store(operand)
        | Instruction::Load(operand)
        | Instruction::Branch(operand)
        | Instruction::BranchZero(operand)
        | Instruction::BranchPositive(operand) => operand,
        _ => vstd::pervasive::unreached(),
    };
    match operand {
        NumberOrIdentifier::Number(number) => Ok(#[verifier::truncate] (*number as u8)),
        NumberOrIdentifier::Identifier(name) => {
            match find_label(&program.labels, name) {
                Some(slot) => Ok(slot),
                None => match find_data(&program.instructions, name) {
                    Some(slot) => Ok(slot),
                    None => Err(InvalidIdentifier { identifier: name.clone() }),
                },
            }
        },
    }
}

/// The opcode of an instruction that has an operand.
fn opcode_of(instruction: &Instruction) -> (code: u8)
    ensures
        code == opcode(instruction@),
{
    match instruction {
        Instruction::Halt => 0,
        Instruction::Add(_) => 1,
        Instruction::Sub(_) => 2,
        Instruction::Store(_) => 3,
        Instruction::Load(_) => 5,
        Instruction::Branch(_) => 6,
        Instruction::BranchZero(_) => 7,
        Instruction::BranchPositive(_) => 8,
        Instruction::Input => 9,
        Instruction::Output => 9,
        Instruction::Data(_, _) => 0,
    }
}

/// Generates the memory image of a program: the cells of its instructions
/// in their slots and zeros behind them. Fails with the first operand name
/// that stands for no slot. The image of a program that fits the machine is
/// one that the machine can run.
pub fn generate(program: Program) -> (result: Result<[Location; 100], InvalidIdentifier>)
    ensures
        image_view(result) == generate_spec(program@),
        program@.wf() ==> (result matches Ok(image) ==> valid_image(image@)),
{
    let mut code = [Location::Data(0);100];
    let used = used_slots(program.instructions.len());
    let mut i: usize = 0;
    assert(code@.take(0) == Seq::<Location>::empty());
    while i < used
        invariant
            i <= used <= program.instructions.len(),
            used == slots(program@.instructions.len()),
            cells(program@, i as int) == Ok::<Seq<Location>, Seq<char>>(code@.take(i as int)),
            program@.wf() ==> valid_image(code@),
            forall|j: int| i <= j < MEMORY_SIZE ==> code@[j] == Location::Data(0),
        decreases used - i,
    {
        let instruction = &program.instructions[i];
        let ghost before = code@;
        let location = match instruction {
            Instruction::Halt => Location::Instruction(InstructionLocation::new(0, 0)),
            Instruction::Input => Location::Instruction(InstructionLocation::new(9, 1)),
            Instruction::Output => Location::Instruction(InstructionLocation::new(9, 2)),
            Instruction::Data(_, number) => Location::Data(*number),
            _ => match get_operand(instruction, &program) {
                Ok(operand) => {
                    proof {
                        if program@.wf() {
                            resolved_in_memory(program@, instruction@.operand()->0);
                        }
                    }
                    Location::Instruction(InstructionLocation::new(opcode_of(instruction), operand))
                },
                Err(e) => {
                    proof {
                        cells_fail_on(program@, i + 1, used as int);
                    }
                    return Err(e);
                },
            },
        };
        code[i] = location;
        proof {
            assert(code@.take(i + 1) == before.take(i as int).push(location));
        }
        i += 1;
    }
    proof {
        assert(code@ == code@.take(used as int) + Seq::new(
            (MEMORY_SIZE - used) as nat,
            |i: int| Location::Data(0),
        ));
    }
    Ok(code)
}

impl vstd::std_specs::convert::TryFromSpecImpl<Program> for [Location; 100] {
    /// What the conversion returns is stated by its own contract, over the
    /// values of the program and of the image.
    open spec fn obeys_try_from_spec() -> bool {
        false
    }

    open spec fn try_from_spec(program: Program) -> Result<Self, Self::Error> {
        vstd::pervasive::arbitrary()
    }
}

impl TryFrom<Program> for [Location; 100] {
    type Error = InvalidIdentifier;

    /// The memory image of `program`, as [`generate`] makes it.
    fn try_from(program: Program) -> (result: Result<Self, InvalidIdentifier>)
        ensures
            image_view(result) == generate_spec(program@),
            program@.wf() ==> (result matches Ok(image) ==> valid_image(image@)),
    {
        generate(program)
    }
}

/// Once an instruction has failed, the program has: the first unknown name
/// among the first `n` instructions is the first among any more of them.
pub proof fn cells_fail_on(program: ProgramView, n: int, m: int)
    requires
        0 <= n <= m,
        cells(program, n) is Err,
    ensures
        cells(program, m) == cells(program, n),
    decreases m - n,
{
    if n < m {
        cells_fail_on(program, n, m - 1);
    }
}

/// In a program that fits the machine, every operand that stands for an
/// address stands for one inside memory.
pub proof fn resolved_in_memory(program: ProgramView, operand: OperandView)
    requires
        program.wf(),
        operand matches OperandView::Number(n) ==> 0 <= n < MEMORY_SIZE,
    ensures
        address(program, operand) matches Ok(slot) ==> slot < MEMORY_SIZE,
{
    if let OperandView::Identifier(name) = operand {
        bound_slot_in_table(program.labels, name);
        data_slot_in_range(program.instructions, name, slots(program.instructions.len()));
    }
}

/// A slot that a name is bound to is the slot of one of the bindings.
pub proof fn bound_slot_in_table(labels: Seq<(Seq<char>, u8)>, name: Seq<char>)
    ensures
        lookup(labels, name) matches Some(slot) ==> exists|i: int|
            0 <= i < labels.len() && (#[trigger] labels[i]).1 == slot && labels[i].0 == name,
    decreases labels.len(),
{
    if labels.len() > 0 {
        if labels.last().0 == name {
        } else {
            bound_slot_in_table(labels.drop_last(), name);
            if let Some(slot) = lookup(labels.drop_last(), name) {
                let i = choose|i: int|
                    0 <= i < labels.drop_last().len() && (#[trigger] labels.drop_last()[i]).1
                        == slot && labels.drop_last()[i].0 == name;
            }
        }
    }
}

/// The slot of a `DAT` statement among the first `n` instructions is below
/// `n`, and holds a `DAT` statement of that name.
pub proof fn data_slot_in_range(instructions: Seq<InstructionView>, name: Seq<char>, n: int)
    requires
        0 <= n <= instructions.len(),
        n <= MEMORY_SIZE,
    ensures
        data_slot(instructions, name, n) matches Some(slot) ==> slot < n && (
        instructions[slot as int] matches InstructionView::Data(label, _) && label == name),
    decreases n,
{
    if n > 0 {
        data_slot_in_range(instructions, name, n - 1);
    }
}


/// Generation fails with the first name that stands for no slot: where the
/// instructions before slot `i` all have their cells and the one in slot `i`
/// holds the unknown `name`, the error is `name`.
pub proof fn first_unknown_name_fails(program: ProgramView, i: int, name: Seq<char>)
    requires
        0 <= i < slots(program.instructions.len()),
        forall|j: int| 0 <= j < i ==> encode(program, #[trigger] program.instructions[j]) is Ok,
        encode(program, program.instructions[i]) == Err::<Location, Seq<char>>(name),
    ensures
        generate_spec(program) == Err::<Seq<Location>, Seq<char>>(name),
{
    all_cells(program, i);
    cells_fail_on(program, i + 1, slots(program.instructions.len()));
}

/// Generation succeeds where every instruction has its cell: where every
/// name in an operand stands for a slot.
pub proof fn known_names_generate(program: ProgramView)
    requires
        forall|j: int|
            0 <= j < slots(program.instructions.len()) ==> encode(
                program,
                #[trigger] program.instructions[j],
            ) is Ok,
    ensures
        generate_spec(program) is Ok,
{
    all_cells(program, slots(program.instructions.len()));
}

/// The first `n` instructions have their cells where each of them has.
pub proof fn all_cells(program: ProgramView, n: int)
    requires
        0 <= n <= program.instructions.len(),
        forall|j: int| 0 <= j < n ==> encode(program, #[trigger] program.instructions[j]) is Ok,
    ensures
        cells(program, n) is Ok,
    decreases n,
{
    if n > 0 {
        all_cells(program, n - 1);
    }
}

} // verus!
