use algor::lexer::{InvalidCharacter, Lexer, Token};

fn lex(source: &str) -> Result<Vec<Token>, InvalidCharacter> {
    Lexer::new(source).lex()
}

fn identifier(name: &str) -> Token {
    Token::Identifier(name.into())
}

#[test]
fn lexer_all_tokens() {
    let source = "HLT COB ADD SUB STA STO LDA BRA BRZ BRP INP OUT DAT 189 ABYZ abyz\n";

    assert_eq!(
        Lexer::new(source).lex(),
        Ok(vec![
            Token::Halt,
            Token::Halt,
            Token::Add,
            Token::Sub,
            Token::Store,
            Token::Store,
            Token::Load,
            Token::Branch,
            Token::BranchZero,
            Token::BranchPositive,
            Token::Input,
            Token::Output,
            Token::Data,
            Token::Number(189),
            Token::Identifier("ABYZ".into()),
            Token::Identifier("abyz".into()),
            Token::Newline
        ])
    );
}

#[test]
fn tests_lexer_all_tokens() {
    let source = "HLT COB ADD SUB STA STO LDA BRA BRZ BRP INP OUT DAT 1289 ABYZ abyz\n";

    assert_eq!(
        Lexer::new(source).lex(),
        Ok(vec![
            Token::Halt,
            Token::Halt,
            Token::Add,
            Token::Sub,
            Token::Store,
            Token::Store,
            Token::Load,
            Token::Branch,
            Token::BranchZero,
            Token::BranchPositive,
            Token::Input,
            Token::Output,
            Token::Data,
            Token::Number(1289),
            Token::Identifier("ABYZ".to_string()),
            Token::Identifier("abyz".to_string()),
            Token::Newline
        ])
    );
}

#[test]
fn lexer_invalid_chararcter() {
    let source = "LDA 10\n?";
    let source2 = "LDA 10\nSTA ?";

    assert_eq!(
        Lexer::new(source).lex(),
        Err(InvalidCharacter {
            character: '?',
            line_column: (2, 1)
        })
    );

    assert_eq!(
        Lexer::new(source2).lex(),
        Err(InvalidCharacter {
            character: '?',
            line_column: (2, 5)
        })
    );
}

#[test]
fn tests_lexer_invalid_chararcter() {
    let source = "LDA 10\n?";
    let source2 = "LDA 10\nSTA ?";

    assert_eq!(
        Lexer::new(source).lex(),
        Err(InvalidCharacter {
            character: '?',
            line_column: (2, 1)
        })
    );

    assert_eq!(
        Lexer::new(source2).lex(),
        Err(InvalidCharacter {
            character: '?',
            line_column: (2, 5)
        })
    );
}

#[test]
fn keywords_in_any_case() {
    assert_eq!(lex("lda"), Ok(vec![Token::Load]));
    assert_eq!(lex("LDA"), Ok(vec![Token::Load]));
    assert_eq!(lex("Lda"), Ok(vec![Token::Load]));
    assert_eq!(lex("hLt cOb sTo"), Ok(vec![Token::Halt, Token::Halt, Token::Store]));
}

#[test]
fn identifiers_keep_their_case() {
    assert_eq!(lex("Loop"), Ok(vec![identifier("Loop")]));
    assert_eq!(lex("LDAX"), Ok(vec![identifier("LDAX")]));
    assert_eq!(lex("ld"), Ok(vec![identifier("ld")]));
}

#[test]
fn same_text_same_tokens() {
    let source = "loop ADD one\nBRA loop\none DAT 1\n";
    assert_eq!(lex(source), lex(source));
    assert_eq!(lex("a ? b"), lex("a ? b"));
}

#[test]
fn empty_text_has_no_tokens() {
    assert_eq!(lex(""), Ok(vec![]));
    assert_eq!(lex(" \t "), Ok(vec![]));
}

#[test]
fn run_at_end_of_text_is_a_token() {
    assert_eq!(lex("OUT"), Ok(vec![Token::Output]));
    assert_eq!(lex("x 12"), Ok(vec![identifier("x"), Token::Number(12)]));
}

#[test]
fn newlines_are_tokens() {
    assert_eq!(
        lex("\nHLT\n\n"),
        Ok(vec![Token::Newline, Token::Halt, Token::Newline, Token::Newline])
    );
}

#[test]
fn negative_numbers() {
    assert_eq!(lex("-5"), Ok(vec![Token::Number(-5)]));
    assert_eq!(lex("a DAT -999"), Ok(vec![identifier("a"), Token::Data, Token::Number(-999)]));
    assert_eq!(lex("-32768"), Ok(vec![Token::Number(-32768)]));
    assert_eq!(lex("5-3"), Ok(vec![Token::Number(5), Token::Number(-3)]));
}

#[test]
fn minus_without_digit_is_invalid() {
    assert_eq!(
        lex("-"),
        Err(InvalidCharacter { character: '-', line_column: (1, 1) })
    );
    assert_eq!(
        lex("1 - 2"),
        Err(InvalidCharacter { character: '-', line_column: (1, 3) })
    );
}

#[test]
fn numbers_that_do_not_fit_are_zero() {
    assert_eq!(lex("32767"), Ok(vec![Token::Number(32767)]));
    assert_eq!(lex("32768"), Ok(vec![Token::Number(0)]));
    assert_eq!(lex("-32769"), Ok(vec![Token::Number(0)]));
    assert_eq!(lex("99999999999999999999999999"), Ok(vec![Token::Number(0)]));
    assert_eq!(lex("000123"), Ok(vec![Token::Number(123)]));
    assert_eq!(lex("100000"), Ok(vec![Token::Number(0)]));
}

#[test]
fn letters_and_digits_split() {
    assert_eq!(lex("ab12cd"), Ok(vec![identifier("ab"), Token::Number(12), identifier("cd")]));
}

#[test]
fn columns_count_from_one() {
    assert_eq!(lex("?"), Err(InvalidCharacter { character: '?', line_column: (1, 1) }));
    assert_eq!(lex("A?"), Err(InvalidCharacter { character: '?', line_column: (1, 2) }));
    assert_eq!(lex("LDA 10 ;"), Err(InvalidCharacter { character: ';', line_column: (1, 8) }));
    assert_eq!(lex("\n\n  #"), Err(InvalidCharacter { character: '#', line_column: (3, 3) }));
}

#[test]
fn carriage_return_is_invalid() {
    assert_eq!(lex("HLT\r\n"), Err(InvalidCharacter { character: '\r', line_column: (1, 4) }));
}

#[test]
fn characters_outside_ascii_are_invalid() {
    assert_eq!(lex("ab\u{e9}"), Err(InvalidCharacter { character: '\u{e9}', line_column: (1, 3) }));
    assert_eq!(lex("\n\u{4e16}"), Err(InvalidCharacter { character: '\u{4e16}', line_column: (2, 1) }));
}

#[test]
fn token_clone_is_equal() {
    let token = identifier("loop");
    assert_eq!(token.clone(), token);
    assert_eq!(Token::Number(7).clone(), Token::Number(7));
}
