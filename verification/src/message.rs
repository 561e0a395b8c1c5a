//! What the errors and the memory cells look like as text: each on one
//! line, with the value that is at fault.

use vstd::prelude::*;
use crate::compiler::{CompileError, CompileErrorView};
use crate::generator::{InvalidIdentifier, Location};
use crate::lexer::{token_views, InvalidCharacter, Token, TokenView};
use crate::parser::{InvalidToken, InvalidTokenView, ParserError, ParserErrorView};
use crate::text::{decimal, digits_of, push_decimal, push_digits, push_text};
use crate::vm::InvalidLocation;

verus! {

/// The message of an [`InvalidCharacter`].
pub open spec fn invalid_character_message(e: InvalidCharacter) -> Seq<char> {
    "invalid character '"@.push(e.character) + "' while lexing ("@ + decimal(
        e.line_column.0 as int,
    ) + ":"@ + decimal(e.line_column.1 as int) + ")"@
}

/// What kind of token `token` is: its mnemonic, or the words for it.
pub open spec fn kind_text(token: TokenView) -> Seq<char> {
    match token {
        TokenView::Halt => "HLT"@,
        TokenView::Add => "ADD"@,
        TokenView::Sub => "SUB"@,
        TokenView::Store => "STA"@,
        TokenView::Load => "LDA"@,
        TokenView::Branch => "BRA"@,
        TokenView::BranchZero => "BRZ"@,
        TokenView::BranchPositive => "BRP"@,
        TokenView::Input => "INP"@,
        TokenView::Output => "OUT"@,
        TokenView::Data => "DAT"@,
        TokenView::Number(_) => "a number"@,
        TokenView::Identifier(_) => "an identifier"@,
        TokenView::Newline => "a new line"@,
    }
}

/// What `token` holds: the number of a number, the name of an identifier,
/// and the kind of any other token.
pub open spec fn token_text(token: TokenView) -> Seq<char> {
    match token {
        TokenView::Number(number) => decimal(number as int),
        TokenView::Identifier(name) => name,
        _ => kind_text(token),
    }
}

/// The kinds of the first `n` tokens of `expected` as a list in words: with
/// commas between them, and `or` before the last of all.
pub open spec fn alternatives(expected: Seq<TokenView>, n: int) -> Seq<char>
    decreases n,
{
    if n <= 0 {
        Seq::empty()
    } else if n == 1 {
        kind_text(expected[0])
    } else if n == expected.len() {
        alternatives(expected, n - 1) + " or "@ + kind_text(expected[n - 1])
    } else {
        alternatives(expected, n - 1) + ", "@ + kind_text(expected[n - 1])
    }
}

/// What an [`InvalidToken`] says was expected.
pub open spec fn expectation(expected: Seq<TokenView>) -> Seq<char> {
    if expected.len() == 0 {
        "Expected nothing"@
    } else if expected.len() == 1 {
        "Expected "@ + kind_text(expected[0])
    } else {
        "Expected: "@ + alternatives(expected, expected.len() as int)
    }
}

/// The message of an [`InvalidToken`].
pub open spec fn invalid_token_message(e: InvalidTokenView) -> Seq<char> {
    expectation(e.expected) + ", received "@ + match e.received {
        Some(token) => token_text(token),
        None => "nothing"@,
    }
}

/// The message of a number that a `DAT` statement cannot hold.
pub open spec fn number_message(number: i16) -> Seq<char> {
    "Number `"@ + decimal(number as int)
        + "` out of range, expected a number between -999 and 999 inclusive"@
}

/// The message of a number that is no address.
pub open spec fn address_message(address: i16) -> Seq<char> {
    "Address `"@ + decimal(address as int)
        + "` out of range, expected a number between 0 and 100 exclusive"@
}

/// What every message of the parser begins with.
pub open spec fn parser_prefix() -> Seq<char> {
    "Encountered an error while parsing: "@
}

/// The message of a [`ParserError`].
pub open spec fn parser_message(e: ParserErrorView) -> Seq<char> {
    parser_prefix() + match e {
        ParserErrorView::InvalidToken(invalid) => invalid_token_message(invalid),
        ParserErrorView::NumberOutOfRange(number) => number_message(number),
        ParserErrorView::AddressOutOfRange(address) => address_message(address),
    }
}

/// The message of an [`InvalidIdentifier`].
pub open spec fn invalid_identifier_message(name: Seq<char>) -> Seq<char> {
    "Identifier `"@ + name + "` is neither a label nor the name of a memory cell"@
}

/// The message of a [`CompileError`]: that of the stage that failed.
pub open spec fn compile_message(e: CompileErrorView) -> Seq<char> {
    match e {
        CompileErrorView::InvalidCharacter(invalid) => invalid_character_message(invalid),
        CompileErrorView::InvalidToken(invalid) => parser_message(
            ParserErrorView::InvalidToken(invalid),
        ),
        CompileErrorView::NumberOutOfRange(number) => parser_message(
            ParserErrorView::NumberOutOfRange(number),
        ),
        CompileErrorView::AddressOutOfRange(address) => parser_message(
            ParserErrorView::AddressOutOfRange(address),
        ),
        CompileErrorView::InvalidIdentifier(name) => invalid_identifier_message(name),
    }
}

/// The message of an [`InvalidLocation`].
pub open spec fn invalid_location_message(e: InvalidLocation) -> Seq<char> {
    match e {
        InvalidLocation::ExpectedInstruction =>
            "Ran into data memory while running code; did you forget to halt?"@,
        InvalidLocation::ExpectedData =>
            "Found an instruction at the address of an operand; did you mean to use a DAT label?"@,
    }
}

/// A memory cell as the machine shows it: an instruction as the three
/// digits of a hundred times its opcode plus its address, with zeros in
/// front where that number is below a hundred; a number in base ten.
pub open spec fn location_text(location: Location) -> Seq<char> {
    match location {
        Location::Instruction(instruction) => {
            let word = (instruction.opcode * 100 + instruction.operand) as nat;
            if word < 10 {
                "00"@ + digits_of(word)
            } else if word < 100 {
                "0"@ + digits_of(word)
            } else {
                digits_of(word)
            }
        },
        Location::Data(number) => decimal(number as int),
    }
}

/// The words for the kind of `token`.
fn kind_of(token: &Token) -> (text: &'static str)
    ensures
        text@ == kind_text(token@),
{
    match token {
        Token::Halt => "HLT",
        Token::Add => "ADD",
        Token::Sub => "SUB",
        Token::Store => "STA",
        Token::Load => "LDA",
        Token::Branch => "BRA",
        Token::BranchZero => "BRZ",
        Token::BranchPositive => "BRP",
        Token::Input => "INP",
        Token::Output => "OUT",
        Token::Data => "DAT",
        Token::Number(_) => "a number",
        Token::Identifier(_) => "an identifier",
        Token::Newline => "a new line",
    }
}

impl Token {
    /// What the token holds, as text.
    pub fn text(&self) -> (text: String)
        ensures
            text@ == token_text(self@),
    {
        match self {
            Token::Number(number) => {
                let mut text = String::new();
                push_decimal(&mut text, *number as i64);
                text
            },
            Token::Identifier(name) => name.clone(),
            _ => kind_of(self).to_owned(),
        }
    }
}

impl InvalidCharacter {
    /// The error on one line, with the character and where it stands.
    pub fn message(&self) -> (text: String)
        ensures
            text@ == invalid_character_message(*self),
    {
        let mut text = "invalid character '".to_owned();
        text.push(self.character);
        push_text(&mut text, "' while lexing (");
        push_digits(&mut text, self.line_column.0 as u64);
        push_text(&mut text, ":");
        push_digits(&mut text, self.line_column.1 as u64);
        push_text(&mut text, ")");
        text
    }
}

/// Appends what an [`InvalidToken`] says was expected.
fn push_expectation(out: &mut String, expected: &Vec<Token>)
    ensures
        final(out)@ == old(out)@ + expectation(token_views(expected@)),
{
    let ghost kinds = token_views(expected@);
    if expected.len() == 0 {
        push_text(out, "Expected nothing");
    } else if expected.len() == 1 {
        push_text(out, "Expected ");
        push_text(out, kind_of(&expected[0]));
    } else {
        push_text(out, "Expected: ");
        push_text(out, kind_of(&expected[0]));
        let mut i: usize = 1;
        while i < expected.len()
            invariant
                1 <= i <= expected.len(),
                expected.len() > 1,
                kinds == token_views(expected@),
                out@ == old(out)@ + ("Expected: "@ + alternatives(kinds, i as int)),
            decreases expected.len() - i,
        {
            if i + 1 == expected.len() {
                push_text(out, " or ");
                push_text(out, kind_of(&expected[i]));
            } else {
                push_text(out, ", ");
                push_text(out, kind_of(&expected[i]));
            }
            i += 1;
        }
    }
}

impl InvalidToken {
    /// The error on one line: what was expected, and what was found.
    pub fn message(&self) -> (text: String)
        ensures
            text@ == invalid_token_message(self@),
    {
        let mut text = String::new();
        push_expectation(&mut text, &self.expected);
        push_text(&mut text, ", received ");
        match &self.received {
            Some(token) => {
                let found = token.text();
                push_text(&mut text, found.as_str());
            },
            None => {
                push_text(&mut text, "nothing");
            },
        }
        text
    }
}

impl ParserError {
    /// The error on one line, with the token or the number at fault.
    pub fn message(&self) -> (text: String)
        ensures
            text@ == parser_message(self@),
    {
        let mut text = "Encountered an error while parsing: ".to_owned();
        match self {
            ParserError::InvalidToken(invalid) => {
                let detail = invalid.message();
                push_text(&mut text, detail.as_str());
            },
            ParserError::NumberOutOfRange(number) => {
                push_text(&mut text, "Number `");
                push_decimal(&mut text, *number as i64);
                push_text(
                    &mut text,
                    "` out of range, expected a number between -999 and 999 inclusive",
                );
            },
            ParserError::AddressOutOfRange(address) => {
                push_text(&mut text, "Address `");
                push_decimal(&mut text, *address as i64);
                push_text(
                    &mut text,
                    "` out of range, expected a number between 0 and 100 exclusive",
                );
            },
        }
        text
    }
}

impl InvalidIdentifier {
    /// The error on one line, with the name that stands for nothing.
    pub fn message(&self) -> (text: String)
        ensures
            text@ == invalid_identifier_message(self.identifier@),
    {
        let mut text = "Identifier `".to_owned();
        push_text(&mut text, self.identifier.as_str());
        push_text(&mut text, "` is neither a label nor the name of a memory cell");
        text
    }
}

impl CompileError {
    /// The error on one line: the message of the stage that failed.
    pub fn message(&self) -> (text: String)
        ensures
            text@ == compile_message(self@),
    {
        match self {
            CompileError::InvalidCharacter(invalid) => invalid.message(),
            CompileError::InvalidToken(invalid) => {
                let mut text = "Encountered an error while parsing: ".to_owned();
                let detail = invalid.message();
                push_text(&mut text, detail.as_str());
                text
            },
            CompileError::NumberOutOfRange(number) => ParserError::NumberOutOfRange(
                *number,
            ).message(),
            CompileError::AddressOutOfRange(address) => ParserError::AddressOutOfRange(
                *address,
            ).message(),
            CompileError::InvalidIdentifier(invalid) => invalid.message(),
        }
    }
}

impl InvalidLocation {
    /// The fault on one line.
    pub fn message(&self) -> (text: String)
        ensures
            text@ == invalid_location_message(*self),
    {
        match self {
            InvalidLocation::ExpectedInstruction => {
                "Ran into data memory while running code; did you forget to halt?".to_owned()
            },
            InvalidLocation::ExpectedData => {
                "Found an instruction at the address of an operand; did you mean to use a DAT label?".to_owned()
            },
        }
    }
}

impl Location {
    /// The cell as the machine shows it.
    pub fn text(&self) -> (text: String)
        ensures
            text@ == location_text(*self),
    {
        let mut text = String::new();
        match self {
            Location::Instruction(instruction) => {
                let word: u64 = instruction.opcode as u64 * 100 + instruction.operand as u64;
                if word < 10 {
                    push_text(&mut text, "00");
                } else if word < 100 {
                    push_text(&mut text, "0");
                }
                push_digits(&mut text, word);
            },
            Location::Data(number) => {
                push_decimal(&mut text, *number as i64);
            },
        }
        text
    }
}

} // verus!
