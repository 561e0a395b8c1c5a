use algor::lexer::{Lexer, Token};
use algor::parser::{
    Instruction, InvalidToken, NumberOrIdentifier, Parser, ParserError, Program,
};

fn parse(source: &str) -> Result<Program, ParserError> {
    Parser::new(Lexer::new(source).lex().unwrap()).parse()
}

fn name(text: &str) -> NumberOrIdentifier {
    NumberOrIdentifier::Identifier(text.into())
}

fn number(value: i16) -> NumberOrIdentifier {
    NumberOrIdentifier::Number(value)
}

fn label(text: &str, slot: u8) -> (String, u8) {
    (text.to_string(), slot)
}

fn mnemonics() -> Vec<Token> {
    vec![
        Token::Halt,
        Token::Add,
        Token::Sub,
        Token::Store,
        Token::Load,
        Token::Branch,
        Token::BranchZero,
        Token::BranchPositive,
        Token::Input,
        Token::Output,
    ]
}

fn heads() -> Vec<Token> {
    let mut tokens = mnemonics();
    tokens.push(Token::Data);
    tokens
}

fn invalid(expected: Vec<Token>, received: Option<Token>) -> Result<Program, ParserError> {
    Err(ParserError::InvalidToken(InvalidToken { expected, received }))
}

#[test]
fn parser_all_instructions() {
    let source = r#"HLT
        COB
        ADD 19
        SUB ABYZ
        STA ABYZ
        STO 19
        yzab LDA ABYZ
        BRA yzab
        BRZ yzab
        BRP yzab
        INP
        OUT
        ABYZ DAT 19
        YZAB DAT
        "#;

    assert_eq!(
        Parser::new(Lexer::new(source).lex().unwrap()).parse(),
        Ok(Program {
            labels: vec![label("yzab", 6), label("ABYZ", 12), label("YZAB", 13)],
            instructions: vec![
                Instruction::Halt,
                Instruction::Halt,
                Instruction::Add(number(19)),
                Instruction::Sub(name("ABYZ")),
                Instruction::Store(name("ABYZ")),
                Instruction::Store(number(19)),
                Instruction::Load(name("ABYZ")),
                Instruction::Branch(name("yzab")),
                Instruction::BranchZero(name("yzab")),
                Instruction::BranchPositive(name("yzab")),
                Instruction::Input,
                Instruction::Output,
                Instruction::Data("ABYZ".into(), 19),
                Instruction::Data("YZAB".into(), 0),
            ],
        })
    );
}

#[test]
fn tests_parser_all_instructions() {
    let source = r#"loop ADD 10
        "#;

    assert_eq!(
        Parser::new(Lexer::new(source).lex().unwrap()).parse(),
        Ok(Program {
            labels: vec![label("loop", 0)],
            instructions: vec![Instruction::Add(number(10))],
        })
    );
}

#[test]
fn parser_too_many_tokens() {
    let source = "HLT 19";

    assert_eq!(
        Parser::new(Lexer::new(source).lex().unwrap()).parse(),
        Err(ParserError::InvalidToken(InvalidToken {
            expected: vec![Token::Newline],
            received: Some(Token::Number(19).into())
        }))
    );
}

#[test]
fn parser_not_enough_tokens() {
    let source = "ADD";

    assert_eq!(
        Parser::new(Lexer::new(source).lex().unwrap()).parse(),
        Err(ParserError::InvalidToken(InvalidToken {
            expected: vec![Token::Identifier("".into()), Token::Number(0)],
            received: None
        }))
    );
}

#[test]
fn empty_program() {
    assert_eq!(parse(""), Ok(Program { labels: vec![], instructions: vec![] }));
    assert_eq!(parse("\n\n \n"), Ok(Program { labels: vec![], instructions: vec![] }));
}

#[test]
fn forward_reference_parses() {
    assert_eq!(
        parse("loop ADD one\nBRA loop\none DAT 1\n"),
        Ok(Program {
            labels: vec![label("loop", 0), label("one", 2)],
            instructions: vec![
                Instruction::Add(name("one")),
                Instruction::Branch(name("loop")),
                Instruction::Data("one".into(), 1),
            ],
        })
    );
}

#[test]
fn number_out_of_range() {
    assert_eq!(parse("A DAT 1000"), Err(ParserError::NumberOutOfRange(1000)));
    assert_eq!(parse("A DAT -1000"), Err(ParserError::NumberOutOfRange(-1000)));
    assert_eq!(parse("A DAT 5000\n"), Err(ParserError::NumberOutOfRange(5000)));
}

#[test]
fn numbers_at_the_ends_of_the_range() {
    assert_eq!(
        parse("A DAT 999\nB DAT -999"),
        Ok(Program {
            labels: vec![label("A", 0), label("B", 1)],
            instructions: vec![
                Instruction::Data("A".into(), 999),
                Instruction::Data("B".into(), -999),
            ],
        })
    );
}

#[test]
fn address_out_of_range() {
    assert_eq!(parse("ADD 100"), Err(ParserError::AddressOutOfRange(100)));
    assert_eq!(parse("ADD 0"), Err(ParserError::AddressOutOfRange(0)));
    assert_eq!(parse("BRA -1"), Err(ParserError::AddressOutOfRange(-1)));
    assert_eq!(parse("STA 1\nLDA 300"), Err(ParserError::AddressOutOfRange(300)));
}

#[test]
fn addresses_at_the_ends_of_the_range() {
    assert_eq!(
        parse("ADD 1\nSUB 99"),
        Ok(Program {
            labels: vec![],
            instructions: vec![Instruction::Add(number(1)), Instruction::Sub(number(99))],
        })
    );
}

#[test]
fn operand_must_be_name_or_number() {
    assert_eq!(
        parse("ADD\n"),
        invalid(vec![Token::Identifier("".into()), Token::Number(0)], Some(Token::Newline))
    );
    assert_eq!(
        parse("LDA HLT"),
        invalid(vec![Token::Identifier("".into()), Token::Number(0)], Some(Token::Halt))
    );
}

#[test]
fn operand_error_comes_before_line_end_error() {
    assert_eq!(parse("ADD 100 5"), Err(ParserError::AddressOutOfRange(100)));
    assert_eq!(
        parse("ADD 5 100"),
        invalid(vec![Token::Newline], Some(Token::Number(100)))
    );
    assert_eq!(
        parse("ADD a b"),
        invalid(vec![Token::Newline], Some(Token::Identifier("b".into())))
    );
}

#[test]
fn data_without_number() {
    let cell = Program {
        labels: vec![label("x", 0)],
        instructions: vec![Instruction::Data("x".into(), 0)],
    };
    assert_eq!(parse("x DAT"), Ok(Program { labels: vec![label("x", 0)], instructions: vec![Instruction::Data("x".into(), 0)] }));
    assert_eq!(parse("x DAT\n"), Ok(cell));
    assert_eq!(parse("x DAT y"), invalid(vec![Token::Number(0)], Some(Token::Identifier("y".into()))));
    assert_eq!(parse("x DAT OUT"), invalid(vec![Token::Number(0)], Some(Token::Output)));
}

#[test]
fn data_line_must_end() {
    assert_eq!(parse("x DAT 5 HLT"), invalid(vec![Token::Newline], Some(Token::Halt)));
    assert_eq!(parse("x DAT 5 6"), invalid(vec![Token::Newline], Some(Token::Number(6))));
}

#[test]
fn label_must_open_a_statement() {
    assert_eq!(parse("x"), invalid(heads(), None));
    assert_eq!(parse("x\nHLT"), invalid(heads(), None));
    assert_eq!(parse("x y HLT"), invalid(heads(), Some(Token::Identifier("x".into()))));
    assert_eq!(parse("x 5"), invalid(heads(), Some(Token::Identifier("x".into()))));
}

#[test]
fn statement_cannot_start_with_number_or_data() {
    assert_eq!(parse("5"), invalid(mnemonics(), Some(Token::Number(5))));
    assert_eq!(parse("DAT 5"), invalid(mnemonics(), Some(Token::Data)));
}

#[test]
fn first_error_wins() {
    assert_eq!(parse("ADD 100\nA DAT 1000"), Err(ParserError::AddressOutOfRange(100)));
    assert_eq!(parse("A DAT 1000\nADD 100"), Err(ParserError::NumberOutOfRange(1000)));
}

#[test]
fn label_bound_twice_keeps_both_bindings_in_order() {
    let program = parse("a HLT\na OUT").unwrap();
    assert_eq!(program.labels, vec![label("a", 0), label("a", 1)]);
}

#[test]
fn statements_past_the_last_slot_take_none() {
    let mut source = String::new();
    for _ in 0..99 {
        source.push_str("OUT\n");
    }
    source.push_str("last HLT\n");
    source.push_str("over INP\n");
    source.push_str("more DAT 7\n");
    let program = parse(&source).unwrap();
    assert_eq!(program.instructions.len(), 100);
    assert_eq!(program.instructions[99], Instruction::Halt);
    assert_eq!(program.labels, vec![label("last", 99)]);
}

#[test]
fn statements_past_the_last_slot_are_still_checked() {
    let mut source = String::new();
    for _ in 0..100 {
        source.push_str("OUT\n");
    }
    source.push_str("ADD 100\n");
    assert_eq!(parse(&source), Err(ParserError::AddressOutOfRange(100)));
}
