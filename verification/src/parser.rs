//! The parser: tokens to a program.
//!
//! A program is a list of statements, one to a line:
//!
//! ```text
//! [label] mnemonic [operand]
//! label DAT [number]
//! ```
//!
//! The tokens are walked twice. The first walk binds every label to the
//! memory slot of the statement it stands before; the second checks the
//! statements and makes their instructions. Operands that are identifiers
//! stay as they are written: a label may be used before the line that
//! declares it, and the code generator resolves it.
//!
//! Memory has a hundred slots. Statements past the hundredth are checked like
//! the others, but they occupy no slot: they add no instruction and bind no
//! label.

use vstd::prelude::*;
use crate::lexer::{token_views, Token, TokenView};

verus! {

/// The number of memory slots of the machine.
pub const MEMORY_SIZE: usize = 100;

/// The operand of an instruction as it is written: a memory address, or the
/// name of a label.
#[derive(PartialEq, Eq, Debug)]
pub enum NumberOrIdentifier {
    Number(i16),
    Identifier(String),
}

/// The mathematical value of a [`NumberOrIdentifier`].
pub enum OperandView {
    Number(i16),
    Identifier(Seq<char>),
}

impl View for NumberOrIdentifier {
    type V = OperandView;

    open spec fn view(&self) -> OperandView {
        match self {
            NumberOrIdentifier::Number(n) => OperandView::Number(*n),
            NumberOrIdentifier::Identifier(name) => OperandView::Identifier(name@),
        }
    }
}

/// One statement of a program: an operation with its operand, or a named
/// memory cell with the number it holds at the start.
#[derive(PartialEq, Eq, Debug)]
pub enum Instruction {
    Halt,
    Add(NumberOrIdentifier),
    Sub(NumberOrIdentifier),
    Store(NumberOrIdentifier),
    Load(NumberOrIdentifier),
    Branch(NumberOrIdentifier),
    BranchZero(NumberOrIdentifier),
    BranchPositive(NumberOrIdentifier),
    Input,
    Output,
    Data(String, i16),
}

/// The mathematical value of an [`Instruction`].
pub enum InstructionView {
    Halt,
    Add(OperandView),
    Sub(OperandView),
    Store(OperandView),
    Load(OperandView),
    Branch(OperandView),
    BranchZero(OperandView),
    BranchPositive(OperandView),
    Input,
    Output,
    Data(Seq<char>, i16),
}

impl View for Instruction {
    type V = InstructionView;

    open spec fn view(&self) -> InstructionView {
        match self {
            Instruction::Halt => InstructionView::Halt,
            Instruction::Add(operand) => InstructionView::Add(operand@),
            Instruction::Sub(operand) => InstructionView::Sub(operand@),
            Instruction::Store(operand) => InstructionView::Store(operand@),
            Instruction::Load(operand) => InstructionView::Load(operand@),
            Instruction::Branch(operand) => InstructionView::Branch(operand@),
            Instruction::BranchZero(operand) => InstructionView::BranchZero(operand@),
            Instruction::BranchPositive(operand) => InstructionView::BranchPositive(operand@),
            Instruction::Input => InstructionView::Input,
            Instruction::Output => InstructionView::Output,
            Instruction::Data(name, value) => InstructionView::Data(name@, *value),
        }
    }
}

impl InstructionView {
    /// The operand of an instruction that has one.
    pub open spec fn operand(self) -> Option<OperandView> {
        match self {
            InstructionView::Add(operand)
            | InstructionView::Sub(operand)
            | InstructionView::Store(operand)
            | InstructionView::Load(operand)
            | InstructionView::Branch(operand)
            | InstructionView::BranchZero(operand)
            | InstructionView::BranchPositive(operand) => Some(operand),
            _ => None,
        }
    }
}

/// The values of a sequence of instructions, one for one.
pub open spec fn instruction_views(instructions: Seq<Instruction>) -> Seq<InstructionView> {
    Seq::new(instructions.len(), |i: int| instructions[i]@)
}

/// The values of a sequence of label bindings, one for one.
pub open spec fn label_views(labels: Seq<(String, u8)>) -> Seq<(Seq<char>, u8)> {
    Seq::new(labels.len(), |i: int| (labels[i].0@, labels[i].1))
}

/// A parsed program: the labels with the slots they are bound to, in the
/// order of their declarations, and the instructions in the order of their
/// slots. Where a name is bound more than once, its last binding counts.
#[derive(PartialEq, Eq, Debug)]
pub struct Program {
    pub labels: Vec<(String, u8)>,
    pub instructions: Vec<Instruction>,
}

/// The mathematical value of a [`Program`].
pub struct ProgramView {
    pub labels: Seq<(Seq<char>, u8)>,
    pub instructions: Seq<InstructionView>,
}

impl View for Program {
    type V = ProgramView;

    open spec fn view(&self) -> ProgramView {
        ProgramView {
            labels: label_views(self.labels@),
            instructions: instruction_views(self.instructions@),
        }
    }
}

/// The slot that `name` is bound to: that of its last binding.
pub open spec fn lookup(labels: Seq<(Seq<char>, u8)>, name: Seq<char>) -> Option<u8>
    decreases labels.len(),
{
    if labels.len() == 0 {
        None
    } else if labels.last().0 == name {
        Some(labels.last().1)
    } else {
        lookup(labels.drop_last(), name)
    }
}

impl ProgramView {
    /// The program fits the machine: it has at most a hundred instructions,
    /// every label is bound to the slot of one of them, and every operand
    /// that is a number is an address of the machine.
    pub open spec fn wf(self) -> bool {
        &&& self.instructions.len() <= MEMORY_SIZE
        &&& forall|i: int|
            0 <= i < self.labels.len() ==> (#[trigger] self.labels[i]).1 < self.instructions.len()
        &&& forall|i: int|
            0 <= i < self.instructions.len() ==> (
            #[trigger] self.instructions[i].operand() matches Some(OperandView::Number(n)) ==> 0
                <= n < MEMORY_SIZE)
    }
}

/// A token that the grammar does not allow where it stands: the tokens that
/// could have stood there, and the token that was found, if any.
#[derive(PartialEq, Eq, Debug)]
pub struct InvalidToken {
    pub expected: Vec<Token>,
    pub received: Option<Token>,
}

/// The mathematical value of an [`InvalidToken`].
pub struct InvalidTokenView {
    pub expected: Seq<TokenView>,
    pub received: Option<TokenView>,
}

impl View for InvalidToken {
    type V = InvalidTokenView;

    open spec fn view(&self) -> InvalidTokenView {
        InvalidTokenView {
            expected: token_views(self.expected@),
            received: match self.received {
                Some(token) => Some(token@),
                None => None,
            },
        }
    }
}

/// Why a sequence of tokens is no program.
#[derive(PartialEq, Eq, Debug)]
pub enum ParserError {
    /// A token stands where the grammar does not allow it.
    InvalidToken(InvalidToken),
    /// The number of a `DAT` statement is not between -999 and 999.
    NumberOutOfRange(i16),
    /// An operand that is a number is not between 1 and 99.
    AddressOutOfRange(i16),
}

/// The mathematical value of a [`ParserError`].
pub enum ParserErrorView {
    InvalidToken(InvalidTokenView),
    NumberOutOfRange(i16),
    AddressOutOfRange(i16),
}

impl View for ParserError {
    type V = ParserErrorView;

    open spec fn view(&self) -> ParserErrorView {
        match self {
            ParserError::InvalidToken(invalid) => ParserErrorView::InvalidToken(invalid@),
            ParserError::NumberOutOfRange(n) => ParserErrorView::NumberOutOfRange(*n),
            ParserError::AddressOutOfRange(n) => ParserErrorView::AddressOutOfRange(*n),
        }
    }
}

/// A mnemonic that takes one operand.
pub open spec fn takes_operand(token: TokenView) -> bool {
    ||| token is Add
    ||| token is Sub
    ||| token is Store
    ||| token is Load
    ||| token is Branch
    ||| token is BranchZero
    ||| token is BranchPositive
}

/// A mnemonic that takes no operand.
pub open spec fn takes_nothing(token: TokenView) -> bool {
    token is Halt || token is Input || token is Output
}

/// A token that opens the body of a statement, behind its label if it has
/// one: a mnemonic, or `DAT`.
pub open spec fn is_head(token: TokenView) -> bool {
    takes_operand(token) || takes_nothing(token) || token is Data
}

/// The ten mnemonics, as an error lists them.
pub open spec fn mnemonics() -> Seq<TokenView> {
    seq![
        TokenView::Halt,
        TokenView::Add,
        TokenView::Sub,
        TokenView::Store,
        TokenView::Load,
        TokenView::Branch,
        TokenView::BranchZero,
        TokenView::BranchPositive,
        TokenView::Input,
        TokenView::Output,
    ]
}

/// The ten mnemonics and `DAT`: what may follow a label.
pub open spec fn heads() -> Seq<TokenView> {
    mnemonics().push(TokenView::Data)
}

/// An identifier and a number: what may follow a mnemonic that takes an
/// operand. The empty name and zero stand for any name and any number.
pub open spec fn operands() -> Seq<TokenView> {
    seq![TokenView::Identifier(Seq::empty()), TokenView::Number(0)]
}

/// The error for `received` where one of `expected` should stand.
pub open spec fn unexpected(expected: Seq<TokenView>, received: Option<TokenView>) -> Parsed {
    Parsed::Fail(ParserErrorView::InvalidToken(InvalidTokenView { expected, received }))
}

/// The instruction of a mnemonic that takes one operand.
pub open spec fn with_operand(mnemonic: TokenView, operand: OperandView) -> InstructionView {
    match mnemonic {
        TokenView::Add => InstructionView::Add(operand),
        TokenView::Sub => InstructionView::Sub(operand),
        TokenView::Store => InstructionView::Store(operand),
        TokenView::Load => InstructionView::Load(operand),
        TokenView::Branch => InstructionView::Branch(operand),
        TokenView::BranchZero => InstructionView::BranchZero(operand),
        _ => InstructionView::BranchPositive(operand),
    }
}

/// The instruction of a mnemonic that takes no operand.
pub open spec fn without_operand(mnemonic: TokenView) -> InstructionView {
    match mnemonic {
        TokenView::Halt => InstructionView::Halt,
        TokenView::Input => InstructionView::Input,
        _ => InstructionView::Output,
    }
}

/// What the parser finds at one position between statements.
pub enum Parsed {
    /// A statement that makes this instruction and ends before this
    /// position.
    Emit(InstructionView, int),
    /// A label or an empty line: the next statement is looked for at this
    /// position.
    Skip(int),
    /// An error.
    Fail(ParserErrorView),
}

/// A statement that makes `instruction` and whose tokens end before `next`:
/// there the line must end, or the tokens.
pub open spec fn line_end(tokens: Seq<TokenView>, next: int, instruction: InstructionView) -> Parsed {
    if next < tokens.len() && !(tokens[next] is Newline) {
        unexpected(seq![TokenView::Newline], Some(tokens[next]))
    } else {
        Parsed::Emit(instruction, next)
    }
}

/// What stands at position `p`, for `0 <= p < tokens.len()`.
///
/// * A line end is passed over.
/// * A mnemonic without operand must be the last token of its line.
/// * A mnemonic with operand must be followed by an identifier, or by a
///   number from 1 to 99, and that by the end of the line.
/// * An identifier before `DAT` names a memory cell. A number from -999 to
///   999 may follow: what the cell holds, zero without it. Then the line
///   must end.
/// * An identifier before a mnemonic is the label of that statement, and is
///   passed over.
/// * Any other identifier is an error that expects a mnemonic or `DAT`. What
///   it reports as received is the identifier itself where another
///   identifier or a number follows it, and nothing where the line or the
///   tokens end behind it.
/// * A number or `DAT` at the start of a statement is an error that expects
///   a mnemonic.
pub open spec fn statement_at(tokens: Seq<TokenView>, p: int) -> Parsed {
    let token = tokens[p];
    if token is Newline {
        Parsed::Skip(p + 1)
    } else if takes_nothing(token) {
        line_end(tokens, p + 1, without_operand(token))
    } else if takes_operand(token) {
        if p + 1 >= tokens.len() {
            unexpected(operands(), None)
        } else {
            match tokens[p + 1] {
                TokenView::Identifier(name) => line_end(
                    tokens,
                    p + 2,
                    with_operand(token, OperandView::Identifier(name)),
                ),
                TokenView::Number(address) => if 0 < address < 100 {
                    line_end(tokens, p + 2, with_operand(token, OperandView::Number(address)))
                } else {
                    Parsed::Fail(ParserErrorView::AddressOutOfRange(address))
                },
                other => unexpected(operands(), Some(other)),
            }
        }
    } else if token is Identifier {
        let name = token->Identifier_0;
        if p + 1 >= tokens.len() {
            unexpected(heads(), None)
        } else {
            match tokens[p + 1] {
                TokenView::Data => if p + 2 >= tokens.len() {
                    Parsed::Emit(InstructionView::Data(name, 0), p + 2)
                } else {
                    match tokens[p + 2] {
                        TokenView::Number(number) => if -1000 < number < 1000 {
                            line_end(tokens, p + 3, InstructionView::Data(name, number))
                        } else {
                            Parsed::Fail(ParserErrorView::NumberOutOfRange(number))
                        },
                        TokenView::Newline => Parsed::Emit(InstructionView::Data(name, 0), p + 2),
                        other => unexpected(seq![TokenView::Number(0)], Some(other)),
                    }
                },
                TokenView::Identifier(_) | TokenView::Number(_) => unexpected(heads(), Some(token)),
                TokenView::Newline => unexpected(heads(), None),
                _ => Parsed::Skip(p + 1),
            }
        }
    } else {
        unexpected(mnemonics(), Some(token))
    }
}

/// A list of instructions with `instruction` in front.
pub open spec fn emitted(
    instruction: InstructionView,
    rest: Result<Seq<InstructionView>, ParserErrorView>,
) -> Result<Seq<InstructionView>, ParserErrorView> {
    match rest {
        Ok(instructions) => Ok(seq![instruction] + instructions),
        Err(e) => Err(e),
    }
}

/// The instructions of the statements from position `p` on, or the first
/// error among them.
pub open spec fn statements_from(tokens: Seq<TokenView>, p: int) -> Result<
    Seq<InstructionView>,
    ParserErrorView,
>
    decreases tokens.len() - p,
    via statements_from_decreases
{
    if p < 0 || p >= tokens.len() {
        Ok(Seq::empty())
    } else {
        match statement_at(tokens, p) {
            Parsed::Fail(e) => Err(e),
            Parsed::Skip(next) => statements_from(tokens, next),
            Parsed::Emit(instruction, next) => emitted(instruction, statements_from(tokens, next)),
        }
    }
}

#[via_fn]
proof fn statements_from_decreases(tokens: Seq<TokenView>, p: int) {
    if 0 <= p < tokens.len() {
        statement_advances(tokens, p);
    }
}

/// A statement ends behind the position at which it starts, and holds the
/// head of one body if it makes an instruction, of none if it makes none.
pub proof fn statement_advances(tokens: Seq<TokenView>, p: int)
    requires
        0 <= p < tokens.len(),
    ensures
        match statement_at(tokens, p) {
            Parsed::Emit(_, next) => p < next <= tokens.len() && slots_before(tokens, next)
                == slots_before(tokens, p) + 1,
            Parsed::Skip(next) => p < next <= tokens.len() && slots_before(tokens, next)
                == slots_before(tokens, p),
            Parsed::Fail(_) => true,
        },
{
    reveal_with_fuel(slots_before, 4);
}

/// The number of statement bodies that open among the first `n` tokens: the
/// slot of a statement that opens at position `n`.
pub open spec fn slots_before(tokens: Seq<TokenView>, n: int) -> nat
    decreases n,
{
    if n <= 0 || n > tokens.len() {
        0
    } else if is_head(tokens[n - 1]) {
        slots_before(tokens, n - 1) + 1
    } else {
        slots_before(tokens, n - 1)
    }
}

/// The token at position `i` declares a label: it is an identifier, and the
/// body of a statement opens right behind it.
pub open spec fn declares_label(tokens: Seq<TokenView>, i: int) -> bool {
    &&& 0 <= i
    &&& i + 1 < tokens.len()
    &&& tokens[i] is Identifier
    &&& is_head(tokens[i + 1])
}

/// The bindings of the labels that the first `n` tokens declare, in the
/// order of their declarations: each name with the slot of its statement,
/// as far as the statement has a slot.
pub open spec fn bindings(tokens: Seq<TokenView>, n: int) -> Seq<(Seq<char>, u8)>
    decreases n,
{
    if n <= 0 {
        Seq::empty()
    } else if declares_label(tokens, n - 1) && slots_before(tokens, n - 1) < MEMORY_SIZE {
        bindings(tokens, n - 1).push(
            (tokens[n - 1]->Identifier_0, slots_before(tokens, n - 1) as u8),
        )
    } else {
        bindings(tokens, n - 1)
    }
}

/// The first `MEMORY_SIZE` of `instructions`, or all of them where they are
/// fewer.
pub open spec fn in_memory(instructions: Seq<InstructionView>) -> Seq<InstructionView> {
    if instructions.len() <= MEMORY_SIZE {
        instructions
    } else {
        instructions.subrange(0, MEMORY_SIZE as int)
    }
}

/// The program that a sequence of tokens denotes, or the first error in it.
pub open spec fn parse_spec(tokens: Seq<TokenView>) -> Result<ProgramView, ParserErrorView> {
    match statements_from(tokens, 0) {
        Ok(instructions) => Ok(
            ProgramView {
                labels: bindings(tokens, tokens.len() as int),
                instructions: in_memory(instructions),
            },
        ),
        Err(e) => Err(e),
    }
}

/// The value of a parser's result.
pub open spec fn parsed(result: Result<Program, ParserError>) -> Result<
    ProgramView,
    ParserErrorView,
> {
    match result {
        Ok(program) => Ok(program@),
        Err(e) => Err(e@),
    }
}


/// What a parser has at one moment: the tokens, how far it has read, and the
/// program made so far.
pub struct ParserView {
    pub tokens: Seq<TokenView>,
    pub position: nat,
    pub program: ProgramView,
}

/// A parser over one sequence of tokens.
#[derive(Debug)]
pub struct Parser {
    tokens: Vec<Token>,
    position: usize,
    program: Program,
}

impl View for Parser {
    type V = ParserView;

    closed spec fn view(&self) -> ParserView {
        ParserView {
            tokens: token_views(self.tokens@),
            position: self.position as nat,
            program: self.program@,
        }
    }
}

/// `instructions` with `instruction` behind them if memory has a slot left
/// for it.
pub open spec fn kept(instructions: Seq<InstructionView>, instruction: InstructionView) -> Seq<
    InstructionView,
> {
    if instructions.len() < MEMORY_SIZE {
        instructions.push(instruction)
    } else {
        instructions
    }
}

/// The parser `next`, with `result`, is what comes of the parser `before`
/// when it finds `found` at its position.
pub open spec fn moved(
    before: ParserView,
    found: Parsed,
    next: ParserView,
    result: Result<(), ParserError>,
) -> bool {
    match found {
        Parsed::Emit(instruction, position) => {
            &&& result is Ok
            &&& next == ParserView {
                tokens: before.tokens,
                position: position as nat,
                program: ProgramView {
                    labels: before.program.labels,
                    instructions: kept(before.program.instructions, instruction),
                },
            }
        },
        Parsed::Skip(position) => {
            &&& result is Ok
            &&& next == ParserView { position: position as nat, ..before }
        },
        Parsed::Fail(e) => result matches Err(error) && error@ == e,
    }
}

/// A mnemonic that takes one operand.
fn is_operation(token: &Token) -> (r: bool)
    ensures
        r == takes_operand(token@),
{
    match token {
        Token::Add
        | Token::Sub
        | Token::Store
        | Token::Load
        | Token::Branch
        | Token::BranchZero
        | Token::BranchPositive => true,
        _ => false,
    }
}

/// A mnemonic that takes no operand.
fn is_plain(token: &Token) -> (r: bool)
    ensures
        r == takes_nothing(token@),
{
    match token {
        Token::Halt | Token::Input | Token::Output => true,
        _ => false,
    }
}

/// The ten mnemonics.
fn mnemonic_tokens() -> (tokens: Vec<Token>)
    ensures
        token_views(tokens@) == mnemonics(),
{
    let mut tokens: Vec<Token> = Vec::new();
    tokens.push(Token::Halt);
    tokens.push(Token::Add);
    tokens.push(Token::Sub);
    tokens.push(Token::Store);
    tokens.push(Token::Load);
    tokens.push(Token::Branch);
    tokens.push(Token::BranchZero);
    tokens.push(Token::BranchPositive);
    tokens.push(Token::Input);
    tokens.push(Token::Output);
    tokens
}

/// The ten mnemonics and `DAT`.
fn head_tokens() -> (tokens: Vec<Token>)
    ensures
        token_views(tokens@) == heads(),
{
    let mut tokens = mnemonic_tokens();
    tokens.push(Token::Data);
    tokens
}

/// An identifier and a number.
fn operand_tokens() -> (tokens: Vec<Token>)
    ensures
        token_views(tokens@) == operands(),
{
    let mut tokens: Vec<Token> = Vec::new();
    tokens.push(Token::Identifier(String::new()));
    tokens.push(Token::Number(0));
    tokens
}

/// The single token `token`.
fn only(token: Token) -> (tokens: Vec<Token>)
    ensures
        token_views(tokens@) == seq![token@],
{
    let mut tokens: Vec<Token> = Vec::new();
    tokens.push(token);
    tokens
}

/// The error for `received` where one of `expected` should stand.
fn invalid(expected: Vec<Token>, received: Option<Token>) -> (error: ParserError)
    ensures
        Parsed::Fail(error@) == unexpected(
            token_views(expected@),
            match received {
                Some(token) => Some(token@),
                None => None,
            },
        ),
{
    ParserError::InvalidToken(InvalidToken { expected, received })
}

impl Parser {
    /// The parser has read nothing and made nothing yet.
    pub closed spec fn wf(&self) -> bool {
        &&& self.position == 0
        &&& self.program.labels@.len() == 0
        &&& self.program.instructions@.len() == 0
    }

    /// A parser at the start of `tokens`, with an empty program.
    pub fn new(tokens: Vec<Token>) -> (parser: Self)
        ensures
            parser.wf(),
            parser@.tokens == token_views(tokens@),
    {
        Self {
            tokens,
            position: 0,
            program: Program { labels: Vec::new(), instructions: Vec::new() },
        }
    }

    /// Adds `instruction` to the program if memory has a slot left for it.
    fn keep(&mut self, instruction: Instruction)
        ensures
            final(self)@ == (ParserView {
                program: ProgramView {
                    instructions: kept(old(self)@.program.instructions, instruction@),
                    ..old(self)@.program
                },
                ..old(self)@
            }),
    {
        if self.program.instructions.len() < MEMORY_SIZE {
            let ghost before = self.program.instructions@;
            self.program.instructions.push(instruction);
            assert(instruction_views(self.program.instructions@) == instruction_views(before).push(
                instruction@,
            ));
        }
    }

    /// Checks that the line ends at the current position, or the tokens.
    fn expect_newline(&self) -> (result: Result<(), ParserError>)
        requires
            self@.position <= self@.tokens.len(),
        ensures
            match result {
                Ok(_) => self@.position == self@.tokens.len()
                    || self@.tokens[self@.position as int] is Newline,
                Err(error) => {
                    &&& self@.position < self@.tokens.len()
                    &&& !(self@.tokens[self@.position as int] is Newline)
                    &&& Parsed::Fail(error@) == unexpected(
                        seq![TokenView::Newline],
                        Some(self@.tokens[self@.position as int]),
                    )
                },
            },
    {
        if self.position < self.tokens.len() {
            match &self.tokens[self.position] {
                Token::Newline => Ok(()),
                token => Err(invalid(only(Token::Newline), Some(token.clone()))),
            }
        } else {
            Ok(())
        }
    }

    /// Parses the statement of a mnemonic without operand at the current
    /// position.
    fn parse_no_operand(&mut self) -> (result: Result<(), ParserError>)
        requires
            old(self)@.position < old(self)@.tokens.len(),
            takes_nothing(old(self)@.tokens[old(self)@.position as int]),
        ensures
            moved(
                old(self)@,
                statement_at(old(self)@.tokens, old(self)@.position as int),
                final(self)@,
                result,
            ),
    {
        let instruction = match &self.tokens[self.position] {
            Token::Halt => Instruction::Halt,
            Token::Input => Instruction::Input,
            _ => Instruction::Output,
        };
        assert(self.position < self.tokens.len());
        self.keep(instruction);
        self.position += 1;
        self.expect_newline()
    }

    /// Parses the statement of a mnemonic with operand at the current
    /// position.
    fn parse_single_operand(&mut self) -> (result: Result<(), ParserError>)
        requires
            old(self)@.position < old(self)@.tokens.len(),
            takes_operand(old(self)@.tokens[old(self)@.position as int]),
        ensures
            moved(
                old(self)@,
                statement_at(old(self)@.tokens, old(self)@.position as int),
                final(self)@,
                result,
            ),
    {
        assert(self.position < self.tokens.len());
        if self.position + 1 >= self.tokens.len() {
            return Err(invalid(operand_tokens(), None));
        }
        let operand = match &self.tokens[self.position + 1] {
            Token::Identifier(name) => NumberOrIdentifier::Identifier(name.clone()),
            Token::Number(address) => {
                if *address < 100 && *address > 0 {
                    NumberOrIdentifier::Number(*address)
                } else {
                    return Err(ParserError::AddressOutOfRange(*address));
                }
            },
            other => {
                return Err(invalid(operand_tokens(), Some(other.clone())));
            },
        };
        let instruction = match &self.tokens[self.position] {
            Token::Add => Instruction::Add(operand),
            Token::Sub => Instruction::Sub(operand),
            Token::Store => Instruction::Store(operand),
            Token::Load => Instruction::Load(operand),
            Token::Branch => Instruction::Branch(operand),
            Token::BranchZero => Instruction::BranchZero(operand),
            _ => Instruction::BranchPositive(operand),
        };
        self.keep(instruction);
        self.position += 2;
        self.expect_newline()
    }

    /// Parses what starts with the identifier `identifier` at the current
    /// position: the statement of a memory cell, or the label of another
    /// statement.
    fn parse_identifier(&mut self, identifier: String) -> (result: Result<(), ParserError>)
        requires
            old(self)@.position < old(self)@.tokens.len(),
            old(self)@.tokens[old(self)@.position as int] == TokenView::Identifier(identifier@),
        ensures
            moved(
                old(self)@,
                statement_at(old(self)@.tokens, old(self)@.position as int),
                final(self)@,
                result,
            ),
    {
        assert(self.position < self.tokens.len());
        if self.position + 1 >= self.tokens.len() {
            return Err(invalid(head_tokens(), None));
        }
        match &self.tokens[self.position + 1] {
            Token::Data => {
                if self.position + 2 >= self.tokens.len() {
                    self.keep(Instruction::Data(identifier, 0));
                    self.position += 2;
                    return Ok(());
                }
                match &self.tokens[self.position + 2] {
                    Token::Number(number) => {
                        let number = *number;
                        if number >= 1000 || number <= -1000 {
                            return Err(ParserError::NumberOutOfRange(number));
                        }
                        self.keep(Instruction::Data(identifier, number));
                        self.position += 3;
                        self.expect_newline()
                    },
                    Token::Newline => {
                        self.keep(Instruction::Data(identifier, 0));
                        self.position += 2;
                        Ok(())
                    },
                    other => Err(invalid(only(Token::Number(0)), Some(other.clone()))),
                }
            },
            Token::Identifier(_) | Token::Number(_) => Err(
                invalid(head_tokens(), Some(Token::Identifier(identifier))),
            ),
            Token::Newline => Err(invalid(head_tokens(), None)),
            _ => {
                self.position += 1;
                Ok(())
            },
        }
    }

    /// Binds every label that the tokens declare to the slot of its
    /// statement.
    fn collect_labels(&mut self)
        requires
            old(self)@.program.labels.len() == 0,
        ensures
            final(self)@ == (ParserView {
                program: ProgramView {
                    labels: bindings(old(self)@.tokens, old(self)@.tokens.len() as int),
                    ..old(self)@.program
                },
                ..old(self)@
            }),
    {
        let ghost tokens = self@.tokens;
        let mut slot: usize = 0;
        let mut i: usize = 0;
        while i < self.tokens.len()
            invariant
                i <= self.tokens.len(),
                self@.tokens == tokens,
                self@.position == old(self)@.position,
                self@.program.instructions == old(self)@.program.instructions,
                slot == slots_before(tokens, i as int),
                slot <= i,
                self@.program.labels == bindings(tokens, i as int),
            decreases self.tokens.len() - i,
        {
            let head = is_operation(&self.tokens[i]) || is_plain(&self.tokens[i]) || matches!(
                &self.tokens[i],
                Token::Data
            );
            match &self.tokens[i] {
                Token::Identifier(name) => {
                    if i + 1 < self.tokens.len() && slot < MEMORY_SIZE {
                        let next = &self.tokens[i + 1];
                        if is_operation(next) || is_plain(next) || matches!(next, Token::Data) {
                            self.program.labels.push((name.clone(), slot as u8));
                        }
                    }
                },
                _ => {},
            }
            if head {
                slot += 1;
            }
            i += 1;
        }
    }

    /// Parses the tokens: the program that they denote, which fits the
    /// machine, or the first error in them.
    pub fn parse(self) -> (result: Result<Program, ParserError>)
        requires
            self.wf(),
        ensures
            parsed(result) == parse_spec(self@.tokens),
            result matches Ok(program) ==> program@.wf(),
    {
        let mut parser = self;
        let ghost tokens = self@.tokens;
        parser.collect_labels();
        let ghost full: Seq<InstructionView> = Seq::empty();
        while parser.position < parser.tokens.len()
            invariant
                tokens == self@.tokens,
                parser@.tokens == tokens,
                parser@.position <= tokens.len(),
                parser@.program.labels == bindings(tokens, tokens.len() as int),
                parser@.program.instructions == in_memory(full),
                full.len() == slots_before(tokens, parser@.position as int),
                forall|i: int|
                    0 <= i < full.len() ==> (#[trigger] full[i].operand() matches Some(
                        OperandView::Number(n),
                    ) ==> 0 <= n < MEMORY_SIZE),
                statements_from(tokens, 0) == (match statements_from(
                    tokens,
                    parser@.position as int,
                ) {
                    Ok(rest) => Ok(full + rest),
                    Err(e) => Err(e),
                }),
            decreases tokens.len() - parser@.position,
        {
            let ghost before = parser@;
            let ghost found = statement_at(tokens, before.position as int);
            proof {
                statement_advances(tokens, before.position as int);
            }
            let step = if is_operation(&parser.tokens[parser.position]) {
                parser.parse_single_operand()
            } else if is_plain(&parser.tokens[parser.position]) {
                parser.parse_no_operand()
            } else {
                match &parser.tokens[parser.position] {
                    Token::Identifier(identifier) => {
                        let identifier = identifier.clone();
                        parser.parse_identifier(identifier)
                    },
                    Token::Newline => {
                        parser.position += 1;
                        Ok(())
                    },
                    other => Err(invalid(mnemonic_tokens(), Some(other.clone()))),
                }
            };
            match step {
                Err(error) => {
                    return Err(error);
                },
                Ok(_) => {
                    proof {
                        if let Parsed::Emit(instruction, next) = found {
                            let rest = statements_from(tokens, next);
                            if let Ok(more) = rest {
                                assert(full + (seq![instruction] + more) == full.push(instruction)
                                    + more);
                            }
                            full = full.push(instruction);
                        }
                    }
                },
            }
        }
        proof {
            bindings_have_slots(tokens, tokens.len() as int);
        }
        Ok(parser.program)
    }
}

/// The count of statement bodies grows with the number of tokens counted.
pub proof fn slots_before_grows(tokens: Seq<TokenView>, m: int, n: int)
    requires
        0 <= m <= n <= tokens.len(),
    ensures
        slots_before(tokens, m) <= slots_before(tokens, n),
    decreases n - m,
{
    if m < n {
        slots_before_grows(tokens, m, n - 1);
    }
}

/// Every label among the first `n` tokens is bound to a slot of memory, and
/// to one that a statement among the tokens takes.
pub proof fn bindings_have_slots(tokens: Seq<TokenView>, n: int)
    requires
        0 <= n <= tokens.len(),
    ensures
        forall|j: int|
            0 <= j < bindings(tokens, n).len() ==> (#[trigger] bindings(tokens, n)[j]).1
                < MEMORY_SIZE && bindings(tokens, n)[j].1 < slots_before(
                tokens,
                tokens.len() as int,
            ),
    decreases n,
{
    if n > 0 {
        bindings_have_slots(tokens, n - 1);
        if declares_label(tokens, n - 1) && slots_before(tokens, n - 1) < MEMORY_SIZE {
            assert(slots_before(tokens, n) >= slots_before(tokens, n - 1));
            slots_before_grows(tokens, n + 1, tokens.len() as int);
        }
        assert forall|j: int| 0 <= j < bindings(tokens, n).len() implies (#[trigger] bindings(
            tokens,
            n,
        )[j]).1 < MEMORY_SIZE && bindings(tokens, n)[j].1 < slots_before(
            tokens,
            tokens.len() as int,
        ) by {
            if j < bindings(tokens, n - 1).len() {
                assert(bindings(tokens, n)[j] == bindings(tokens, n - 1)[j]);
            }
        }
    }
}


/// A label that the first `n` tokens declare for a statement that has a slot
/// is bound among their bindings, wherever the tokens that use it stand.
pub proof fn declared_label_is_bound(tokens: Seq<TokenView>, i: int, n: int)
    requires
        0 <= i < n <= tokens.len(),
        declares_label(tokens, i),
        slots_before(tokens, i) < MEMORY_SIZE,
    ensures
        lookup(bindings(tokens, n), tokens[i]->Identifier_0) is Some,
    decreases n,
{
    let name = tokens[i]->Identifier_0;
    if n - 1 > i {
        declared_label_is_bound(tokens, i, n - 1);
        let before = bindings(tokens, n - 1);
        if declares_label(tokens, n - 1) && slots_before(tokens, n - 1) < MEMORY_SIZE {
            assert(bindings(tokens, n).drop_last() == before);
        }
    }
}

} // verus!
