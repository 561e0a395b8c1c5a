//! The assembler as one call: source text to memory image.

use vstd::prelude::*;
use crate::generator::{
    data_slot, encode, first_unknown_name_fails, generate, generate_spec, known_names_generate,
    resolve, slots, valid_image, InvalidIdentifier, Location,
};
use crate::lexer::{lex_spec, InvalidCharacter, Lexer, TokenView};
use crate::parser::{
    bindings, declared_label_is_bound, declares_label, lookup, parse_spec, slots_before,
    statement_advances, statement_at, statements_from, InstructionView, InvalidToken,
    InvalidTokenView, OperandView, Parsed, Parser, ParserError, ParserErrorView, MEMORY_SIZE,
};

verus! {

/// Why a source text is no program: the error of the lexer, one of the
/// three of the parser, or that of the code generator.
#[derive(PartialEq, Eq, Debug)]
pub enum CompileError {
    InvalidCharacter(InvalidCharacter),
    InvalidToken(InvalidToken),
    NumberOutOfRange(i16),
    AddressOutOfRange(i16),
    InvalidIdentifier(InvalidIdentifier),
}

/// The mathematical value of a [`CompileError`].
pub enum CompileErrorView {
    InvalidCharacter(InvalidCharacter),
    InvalidToken(InvalidTokenView),
    NumberOutOfRange(i16),
    AddressOutOfRange(i16),
    InvalidIdentifier(Seq<char>),
}

impl View for CompileError {
    type V = CompileErrorView;

    open spec fn view(&self) -> CompileErrorView {
        match self {
            CompileError::InvalidCharacter(e) => CompileErrorView::InvalidCharacter(*e),
            CompileError::InvalidToken(e) => CompileErrorView::InvalidToken(e@),
            CompileError::NumberOutOfRange(n) => CompileErrorView::NumberOutOfRange(*n),
            CompileError::AddressOutOfRange(n) => CompileErrorView::AddressOutOfRange(*n),
            CompileError::InvalidIdentifier(e) => CompileErrorView::InvalidIdentifier(
                e.identifier@,
            ),
        }
    }
}

/// A parser's error as an error of the assembler.
pub open spec fn syntax_error(e: ParserErrorView) -> CompileErrorView {
    match e {
        ParserErrorView::InvalidToken(invalid) => CompileErrorView::InvalidToken(invalid),
        ParserErrorView::NumberOutOfRange(n) => CompileErrorView::NumberOutOfRange(n),
        ParserErrorView::AddressOutOfRange(n) => CompileErrorView::AddressOutOfRange(n),
    }
}

/// The memory image of a source text: its tokens, parsed, as code; or the
/// error of the first of the three stages that fails.
pub open spec fn compile_spec(source: Seq<char>) -> Result<Seq<Location>, CompileErrorView> {
    match lex_spec(source) {
        Err(e) => Err(CompileErrorView::InvalidCharacter(e)),
        Ok(tokens) => match parse_spec(tokens) {
            Err(e) => Err(syntax_error(e)),
            Ok(program) => match generate_spec(program) {
                Err(name) => Err(CompileErrorView::InvalidIdentifier(name)),
                Ok(image) => Ok(image),
            },
        },
    }
}

/// The value of the assembler's result.
pub open spec fn compiled(result: Result<[Location; 100], CompileError>) -> Result<
    Seq<Location>,
    CompileErrorView,
> {
    match result {
        Ok(image) => Ok(image@),
        Err(e) => Err(e@),
    }
}

/// Assembles `source`: the memory image of the program it holds, which the
/// machine can run, or the first error in it.
pub fn compile(source: &str) -> (result: Result<[Location; 100], CompileError>)
    ensures
        compiled(result) == compile_spec(source@),
        result matches Ok(image) ==> valid_image(image@),
{
    let tokens = match Lexer::new(source).lex() {
        Ok(tokens) => tokens,
        Err(e) => {
            return Err(CompileError::InvalidCharacter(e));
        },
    };
    let program = match Parser::new(tokens).parse() {
        Ok(program) => program,
        Err(ParserError::InvalidToken(invalid)) => {
            return Err(CompileError::InvalidToken(invalid));
        },
        Err(ParserError::NumberOutOfRange(n)) => {
            return Err(CompileError::NumberOutOfRange(n));
        },
        Err(ParserError::AddressOutOfRange(n)) => {
            return Err(CompileError::AddressOutOfRange(n));
        },
    };
    match generate(program) {
        Ok(image) => Ok(image),
        Err(e) => Err(CompileError::InvalidIdentifier(e)),
    }
}


/// Some token of `tokens` declares `name` as a label, for a statement that
/// has a slot.
pub open spec fn declared(tokens: Seq<TokenView>, name: Seq<char>) -> bool {
    exists|i: int|
        #[trigger] declares_label(tokens, i) && tokens[i] == TokenView::Identifier(name)
            && slots_before(tokens, i) < MEMORY_SIZE
}

/// A label resolves wherever it is declared: in the program of tokens that
/// parse, a name that the token at position `i` declares for a statement
/// that has a slot stands for a slot, be it used before or behind its
/// declaration.
pub proof fn forward_reference_resolves(tokens: Seq<TokenView>, i: int)
    requires
        declares_label(tokens, i),
        slots_before(tokens, i) < MEMORY_SIZE,
    ensures
        parse_spec(tokens) matches Ok(program) ==> resolve(program, tokens[i]->Identifier_0)
            is Some,
{
    declared_label_is_bound(tokens, i, tokens.len() as int);
}

/// Tokens that parse assemble where every name in an operand is declared,
/// before or behind the operand: generation does not fail with an unknown
/// name.
pub proof fn declared_names_generate(tokens: Seq<TokenView>)
    requires
        parse_spec(tokens) matches Ok(program) && forall|j: int|
            0 <= j < program.instructions.len() ==> (
            #[trigger] program.instructions[j].operand() matches Some(
                OperandView::Identifier(name),
            ) ==> declared(tokens, name)),
    ensures
        parse_spec(tokens) matches Ok(program) && generate_spec(program) is Ok,
{
    let program = parse_spec(tokens)->Ok_0;
    assert forall|j: int| 0 <= j < slots(program.instructions.len()) implies encode(
        program,
        #[trigger] program.instructions[j],
    ) is Ok by {
        if let Some(OperandView::Identifier(name)) = program.instructions[j].operand() {
            let i = choose|i: int|
                #[trigger] declares_label(tokens, i) && tokens[i] == TokenView::Identifier(name)
                    && slots_before(tokens, i) < MEMORY_SIZE;
            forward_reference_resolves(tokens, i);
        }
    }
    known_names_generate(program);
}

/// No binding among those of the first `n` tokens binds a name that no token
/// declares.
pub proof fn undeclared_name_is_unbound(tokens: Seq<TokenView>, name: Seq<char>, n: int)
    requires
        0 <= n <= tokens.len(),
        !declared(tokens, name),
    ensures
        lookup(bindings(tokens, n), name) is None,
    decreases n,
{
    if n > 0 {
        undeclared_name_is_unbound(tokens, name, n - 1);
        if declares_label(tokens, n - 1) && slots_before(tokens, n - 1) < MEMORY_SIZE {
            assert(bindings(tokens, n).drop_last() == bindings(tokens, n - 1));
        }
    }
}

/// Every `DAT` statement that has a slot, among the statements from position
/// `p` on, carries a name that a token declares. `made` is the number of
/// statements before position `p`.
pub proof fn data_names_are_declared(tokens: Seq<TokenView>, p: int, made: int)
    requires
        0 <= p <= tokens.len(),
        made == slots_before(tokens, p),
    ensures
        statements_from(tokens, p) matches Ok(instructions) ==> forall|k: int|
            0 <= k < instructions.len() && made + k < MEMORY_SIZE ==> (
            #[trigger] instructions[k] matches InstructionView::Data(name, _) ==> declared(
                tokens,
                name,
            )),
    decreases tokens.len() - p,
{
    if p < tokens.len() {
        statement_advances(tokens, p);
        match statement_at(tokens, p) {
            Parsed::Fail(_) => {},
            Parsed::Skip(next) => {
                data_names_are_declared(tokens, next, made);
            },
            Parsed::Emit(instruction, next) => {
                data_names_are_declared(tokens, next, made + 1);
                if let Ok(rest) = statements_from(tokens, next) {
                    let instructions = seq![instruction] + rest;
                    assert forall|k: int|
                        0 <= k < instructions.len() && made + k < MEMORY_SIZE implies (
                    #[trigger] instructions[k] matches InstructionView::Data(name, _)
                        ==> declared(tokens, name)) by {
                        if k == 0 {
                            if let InstructionView::Data(name, _) = instruction {
                                assert(declares_label(tokens, p));
                            }
                        }
                    }
                }
            },
        }
    }
}

/// No `DAT` statement among the first `n` instructions gives a slot to a
/// name that none of them carries.
pub proof fn unnamed_data_has_no_slot(
    instructions: Seq<InstructionView>,
    name: Seq<char>,
    n: int,
)
    requires
        0 <= n <= instructions.len(),
        forall|k: int|
            0 <= k < n ==> !(#[trigger] instructions[k] matches InstructionView::Data(label, _)
                && label == name),
    ensures
        data_slot(instructions, name, n) is None,
    decreases n,
{
    if n > 0 {
        unnamed_data_has_no_slot(instructions, name, n - 1);
    }
}

/// A name that is never declared fails the assembly: where tokens parse, the
/// instructions before slot `j` have their cells and the one in slot `j`
/// has for its operand a name that no token declares for a statement that
/// has a slot, generation fails with that name.
pub proof fn undeclared_name_fails(tokens: Seq<TokenView>, j: int, name: Seq<char>)
    requires
        !declared(tokens, name),
        parse_spec(tokens) matches Ok(program) && 0 <= j < program.instructions.len()
            && program.instructions[j].operand() == Some(OperandView::Identifier(name))
            && forall|k: int|
            0 <= k < j ==> encode(program, #[trigger] program.instructions[k]) is Ok,
    ensures
        parse_spec(tokens) matches Ok(program) && generate_spec(program) == Err::<
            Seq<Location>,
            Seq<char>,
        >(name),
{
    let program = parse_spec(tokens)->Ok_0;
    let used = slots(program.instructions.len());
    undeclared_name_is_unbound(tokens, name, tokens.len() as int);
    data_names_are_declared(tokens, 0, 0);
    unnamed_data_has_no_slot(program.instructions, name, used);
    first_unknown_name_fails(program, j, name);
}

} // verus!
