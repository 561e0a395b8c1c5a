//! The lexer: source text to tokens.
//!
//! The text is read from left to right. A run of letters is a mnemonic or an
//! identifier, a run of digits (with an optional `-` in front) is a number, a
//! line feed is a token of its own, spaces and tabs separate tokens, and any
//! other character ends the lexing with an error that says where it stands.

use vstd::prelude::*;
use crate::text::{
    all_digits, bounded_value, chars_of, decimal_value, digit, is_blank, is_digit, is_letter,
    letter, to_upper, upper, upper_case,
};

verus! {

/// A lexical unit of the assembly language.
#[derive(PartialEq, Eq, Debug)]
pub enum Token {
    /// `HLT` or `COB`
    Halt,
    /// `ADD`
    Add,
    /// `SUB`
    Sub,
    /// `STA` or `STO`
    Store,
    /// `LDA`
    Load,
    /// `BRA`
    Branch,
    /// `BRZ`
    BranchZero,
    /// `BRP`
    BranchPositive,
    /// `INP`
    Input,
    /// `OUT`
    Output,
    /// `DAT`
    Data,
    /// A number literal.
    Number(i16),
    /// A run of letters that is no mnemonic.
    Identifier(String),
    /// The end of a line.
    Newline,
}

/// The mathematical value of a [`Token`]: the same variants, with the text of
/// an identifier as a sequence of characters.
pub enum TokenView {
    Halt,
    Add,
    Sub,
    Store,
    Load,
    Branch,
    BranchZero,
    BranchPositive,
    Input,
    Output,
    Data,
    Number(i16),
    Identifier(Seq<char>),
    Newline,
}

impl View for Token {
    type V = TokenView;

    open spec fn view(&self) -> TokenView {
        match self {
            Token::Halt => TokenView::Halt,
            Token::Add => TokenView::Add,
            Token::Sub => TokenView::Sub,
            Token::Store => TokenView::Store,
            Token::Load => TokenView::Load,
            Token::Branch => TokenView::Branch,
            Token::BranchZero => TokenView::BranchZero,
            Token::BranchPositive => TokenView::BranchPositive,
            Token::Input => TokenView::Input,
            Token::Output => TokenView::Output,
            Token::Data => TokenView::Data,
            Token::Number(n) => TokenView::Number(*n),
            Token::Identifier(name) => TokenView::Identifier(name@),
            Token::Newline => TokenView::Newline,
        }
    }
}

impl Clone for Token {
    fn clone(&self) -> (copy: Self)
        ensures
            copy == *self,
    {
        match self {
            Token::Halt => Token::Halt,
            Token::Add => Token::Add,
            Token::Sub => Token::Sub,
            Token::Store => Token::Store,
            Token::Load => Token::Load,
            Token::Branch => Token::Branch,
            Token::BranchZero => Token::BranchZero,
            Token::BranchPositive => Token::BranchPositive,
            Token::Input => Token::Input,
            Token::Output => Token::Output,
            Token::Data => Token::Data,
            Token::Number(n) => Token::Number(*n),
            Token::Identifier(name) => Token::Identifier(name.clone()),
            Token::Newline => Token::Newline,
        }
    }
}

/// The values of a sequence of tokens, one for one.
pub open spec fn token_views(tokens: Seq<Token>) -> Seq<TokenView> {
    Seq::new(tokens.len(), |i: int| tokens[i]@)
}

/// A character that no token can hold, with the line and the column at which
/// it stands, both counted from one.
#[derive(PartialEq, Eq, Debug, Clone, Copy)]
pub struct InvalidCharacter {
    pub character: char,
    pub line_column: (usize, usize),
}

/// Where the run of letters that holds position `from` ends: the first
/// position at or after `from` that holds no letter, or the end of the text.
pub open spec fn word_end(s: Seq<char>, from: int) -> int
    decreases s.len() - from,
{
    if 0 <= from < s.len() && is_letter(s[from]) {
        word_end(s, from + 1)
    } else {
        from
    }
}

/// Where the run of digits that holds position `from` ends.
pub open spec fn digits_end(s: Seq<char>, from: int) -> int
    decreases s.len() - from,
{
    if 0 <= from < s.len() && is_digit(s[from]) {
        digits_end(s, from + 1)
    } else {
        from
    }
}

/// The mnemonic that `word` spells, whatever the case of its letters.
pub open spec fn keyword(word: Seq<char>) -> Option<TokenView> {
    let w = upper(word);
    if w == seq!['H', 'L', 'T'] || w == seq!['C', 'O', 'B'] {
        Some(TokenView::Halt)
    } else if w == seq!['A', 'D', 'D'] {
        Some(TokenView::Add)
    } else if w == seq!['S', 'U', 'B'] {
        Some(TokenView::Sub)
    } else if w == seq!['S', 'T', 'A'] || w == seq!['S', 'T', 'O'] {
        Some(TokenView::Store)
    } else if w == seq!['L', 'D', 'A'] {
        Some(TokenView::Load)
    } else if w == seq!['B', 'R', 'A'] {
        Some(TokenView::Branch)
    } else if w == seq!['B', 'R', 'Z'] {
        Some(TokenView::BranchZero)
    } else if w == seq!['B', 'R', 'P'] {
        Some(TokenView::BranchPositive)
    } else if w == seq!['I', 'N', 'P'] {
        Some(TokenView::Input)
    } else if w == seq!['O', 'U', 'T'] {
        Some(TokenView::Output)
    } else if w == seq!['D', 'A', 'T'] {
        Some(TokenView::Data)
    } else {
        None
    }
}

/// The token that a run of letters makes: the mnemonic it spells, or else an
/// identifier with the letters as they were written.
pub open spec fn word_token(word: Seq<char>) -> TokenView {
    match keyword(word) {
        Some(token) => token,
        None => TokenView::Identifier(word),
    }
}

/// The value of a number literal: what its digits denote, negated after a
/// `-`, if a 16-bit signed integer can hold that; zero otherwise.
pub open spec fn number_value(negative: bool, digits: Seq<char>) -> i16 {
    let magnitude = decimal_value(digits);
    let value = if negative {
        -magnitude
    } else {
        magnitude
    };
    if -32768 <= value <= 32767 {
        value as i16
    } else {
        0
    }
}

/// A number literal starts at `pos`: a digit, or a `-` with a digit right
/// after it.
pub open spec fn starts_number(s: Seq<char>, pos: int) -> bool {
    &&& 0 <= pos < s.len()
    &&& is_digit(s[pos]) || (s[pos] == '-' && pos + 1 < s.len() && is_digit(s[pos + 1]))
}

/// The line of position `pos`, counted from one: one more than the number of
/// line feeds before it.
pub open spec fn line_of(s: Seq<char>, pos: int) -> int
    decreases pos,
{
    if pos <= 0 || pos > s.len() {
        1
    } else if s[pos - 1] == '\n' {
        line_of(s, pos - 1) + 1
    } else {
        line_of(s, pos - 1)
    }
}

/// The column of position `pos`, counted from one: its distance from the
/// last line feed before it, or from the start of the text.
pub open spec fn column_of(s: Seq<char>, pos: int) -> int
    decreases pos,
{
    if pos <= 0 || pos > s.len() {
        1
    } else if s[pos - 1] == '\n' {
        1
    } else {
        column_of(s, pos - 1) + 1
    }
}

/// The result of lexing with `token` in front.
pub open spec fn after(token: TokenView, rest: Result<Seq<TokenView>, InvalidCharacter>) -> Result<
    Seq<TokenView>,
    InvalidCharacter,
> {
    match rest {
        Ok(tokens) => Ok(seq![token] + tokens),
        Err(e) => Err(e),
    }
}

/// The tokens of `s` from position `pos` on, or the first character from
/// there on that no token can hold.
pub open spec fn lex_from(s: Seq<char>, pos: int) -> Result<Seq<TokenView>, InvalidCharacter>
    decreases s.len() - pos,
    via lex_from_decreases
{
    if pos < 0 || pos >= s.len() {
        Ok(Seq::empty())
    } else if is_letter(s[pos]) {
        let end = word_end(s, pos);
        after(word_token(s.subrange(pos, end)), lex_from(s, end))
    } else if starts_number(s, pos) {
        let negative = s[pos] == '-';
        let first = if negative {
            pos + 1
        } else {
            pos
        };
        let end = digits_end(s, first);
        after(
            TokenView::Number(number_value(negative, s.subrange(first, end))),
            lex_from(s, end),
        )
    } else if s[pos] == '\n' {
        after(TokenView::Newline, lex_from(s, pos + 1))
    } else if is_blank(s[pos]) {
        lex_from(s, pos + 1)
    } else {
        Err(
            InvalidCharacter {
                character: s[pos],
                line_column: (line_of(s, pos) as usize, column_of(s, pos) as usize),
            },
        )
    }
}

#[via_fn]
proof fn lex_from_decreases(s: Seq<char>, pos: int) {
    if 0 <= pos < s.len() {
        if is_letter(s[pos]) {
            word_end_bounds(s, pos);
        } else if starts_number(s, pos) {
            if s[pos] == '-' {
                digits_end_bounds(s, pos + 1);
            } else {
                digits_end_bounds(s, pos);
            }
        }
    }
}

/// The tokens of a whole text.
pub open spec fn lex_spec(s: Seq<char>) -> Result<Seq<TokenView>, InvalidCharacter> {
    lex_from(s, 0)
}

/// A run of letters lies inside the text, holds letters only, and stops at a
/// character that is no letter.
pub proof fn word_end_bounds(s: Seq<char>, from: int)
    requires
        0 <= from <= s.len(),
    ensures
        from <= word_end(s, from) <= s.len(),
        from < s.len() && is_letter(s[from]) ==> from < word_end(s, from),
        forall|i: int| from <= i < word_end(s, from) ==> is_letter(#[trigger] s[i]),
        word_end(s, from) < s.len() ==> !is_letter(s[word_end(s, from)]),
    decreases s.len() - from,
{
    if from < s.len() && is_letter(s[from]) {
        word_end_bounds(s, from + 1);
    }
}

/// A run of digits lies inside the text, holds digits only, and stops at a
/// character that is no digit.
pub proof fn digits_end_bounds(s: Seq<char>, from: int)
    requires
        0 <= from <= s.len(),
    ensures
        from <= digits_end(s, from) <= s.len(),
        from < s.len() && is_digit(s[from]) ==> from < digits_end(s, from),
        forall|i: int| from <= i < digits_end(s, from) ==> is_digit(#[trigger] s[i]),
        digits_end(s, from) < s.len() ==> !is_digit(s[digits_end(s, from)]),
    decreases s.len() - from,
{
    if from < s.len() && is_digit(s[from]) {
        digits_end_bounds(s, from + 1);
    }
}

/// The line and the column of a position are at least one and at most one
/// more than the position.
pub proof fn line_column_bounds(s: Seq<char>, pos: int)
    requires
        0 <= pos <= s.len(),
    ensures
        1 <= line_of(s, pos) <= pos + 1,
        1 <= column_of(s, pos) <= pos + 1,
    decreases pos,
{
    if pos > 0 {
        line_column_bounds(s, pos - 1);
    }
}

/// What a lexer has at one moment: the text, how far it has read, and the
/// tokens made so far.
pub struct LexerView {
    pub source: Seq<char>,
    pub position: nat,
    pub tokens: Seq<TokenView>,
}

impl LexerView {
    /// What lexing gives when it goes on from here: the tokens made so far,
    /// then those of the rest of the text.
    pub open spec fn finish(self) -> Result<Seq<TokenView>, InvalidCharacter> {
        match lex_from(self.source, self.position as int) {
            Ok(rest) => Ok(self.tokens + rest),
            Err(e) => Err(e),
        }
    }
}

/// The value of a lexer's result.
pub open spec fn lexed(result: Result<Vec<Token>, InvalidCharacter>) -> Result<
    Seq<TokenView>,
    InvalidCharacter,
> {
    match result {
        Ok(tokens) => Ok(token_views(tokens@)),
        Err(e) => Err(e),
    }
}

/// A lexer over one source text.
pub struct Lexer<'a> {
    source: &'a str,
    chars: Vec<char>,
    position: usize,
    tokens: Vec<Token>,
}

impl<'a> View for Lexer<'a> {
    type V = LexerView;

    closed spec fn view(&self) -> LexerView {
        LexerView {
            source: self.source@,
            position: self.position as nat,
            tokens: token_views(self.tokens@),
        }
    }
}

impl<'a> Lexer<'a> {
    /// The lexer stands inside its text.
    pub closed spec fn wf(&self) -> bool {
        &&& self.chars@ == self.source@
        &&& self.position <= self.chars.len()
    }

    /// A lexer at the start of `source`, with no token made yet.
    pub fn new(source: &'a str) -> (lexer: Self)
        ensures
            lexer.wf(),
            lexer@ == (LexerView { source: source@, position: 0, tokens: Seq::empty() }),
    {
        let lexer = Self { source, chars: chars_of(source), position: 0, tokens: Vec::new() };
        assert(token_views(lexer.tokens@) =~= Seq::empty());
        lexer
    }

    /// Reads the run of letters at the current position and adds its token:
    /// a mnemonic, or an identifier.
    fn lex_string(&mut self)
        requires
            old(self).wf(),
            old(self)@.position < old(self)@.source.len(),
            is_letter(old(self)@.source[old(self)@.position as int]),
        ensures
            final(self).wf(),
            final(self)@.source == old(self)@.source,
            final(self)@.position == word_end(old(self)@.source, old(self)@.position as int),
            old(self)@.position < final(self)@.position <= old(self)@.source.len(),
            final(self)@.tokens == old(self)@.tokens.push(
                word_token(
                    old(self)@.source.subrange(
                        old(self)@.position as int,
                        final(self)@.position as int,
                    ),
                ),
            ),
    {
        let ghost s = self.source@;
        let start = self.position;
        let mut end = start;
        let mut name = String::new();
        while end < self.chars.len() && letter(self.chars[end])
            invariant
                start <= end <= self.chars.len(),
                self.chars@ == s,
                word_end(s, start as int) == word_end(s, end as int),
                name@ == s.subrange(start as int, end as int),
            decreases self.chars.len() - end,
        {
            name.push(self.chars[end]);
            end += 1;
        }
        let token = if end - start == 3 {
            let a = upper_case(self.chars[start]);
            let b = upper_case(self.chars[start + 1]);
            let c = upper_case(self.chars[start + 2]);
            proof {
                assert(upper(name@) == seq![a, b, c]);
                spelled(a, b, c);
            }
            if (a == 'H' && b == 'L' && c == 'T') || (a == 'C' && b == 'O' && c == 'B') {
                Token::Halt
            } else if a == 'A' && b == 'D' && c == 'D' {
                Token::Add
            } else if a == 'S' && b == 'U' && c == 'B' {
                Token::Sub
            } else if (a == 'S' && b == 'T' && c == 'A') || (a == 'S' && b == 'T' && c == 'O') {
                Token::Store
            } else if a == 'L' && b == 'D' && c == 'A' {
                Token::Load
            } else if a == 'B' && b == 'R' && c == 'A' {
                Token::Branch
            } else if a == 'B' && b == 'R' && c == 'Z' {
                Token::BranchZero
            } else if a == 'B' && b == 'R' && c == 'P' {
                Token::BranchPositive
            } else if a == 'I' && b == 'N' && c == 'P' {
                Token::Input
            } else if a == 'O' && b == 'U' && c == 'T' {
                Token::Output
            } else if a == 'D' && b == 'A' && c == 'T' {
                Token::Data
            } else {
                Token::Identifier(name)
            }
        } else {
            proof {
                assert(upper(name@).len() != 3);
            }
            Token::Identifier(name)
        };
        self.tokens.push(token);
        self.position = end;
    }

    /// Reads the number literal at the current position and adds its token.
    fn lex_number(&mut self)
        requires
            old(self).wf(),
            starts_number(old(self)@.source, old(self)@.position as int),
        ensures
            final(self).wf(),
            final(self)@.source == old(self)@.source,
            old(self)@.position < final(self)@.position <= old(self)@.source.len(),
            ({
                let s = old(self)@.source;
                let pos = old(self)@.position as int;
                let negative = s[pos] == '-';
                let first = if negative {
                    pos + 1
                } else {
                    pos
                };
                &&& final(self)@.position == digits_end(s, first)
                &&& final(self)@.tokens == old(self)@.tokens.push(
                    TokenView::Number(
                        number_value(negative, s.subrange(first, digits_end(s, first))),
                    ),
                )
            }),
    {
        let ghost s = self.source@;
        let negative = self.chars[self.position] == '-';
        let first = if negative {
            self.position + 1
        } else {
            self.position
        };
        let mut end = first;
        while end < self.chars.len() && digit(self.chars[end])
            invariant
                first <= end <= self.chars.len(),
                self.chars@ == s,
                digits_end(s, first as int) == digits_end(s, end as int),
                all_digits(s.subrange(first as int, end as int)),
            decreases self.chars.len() - end,
        {
            end += 1;
        }
        let magnitude = bounded_value(&self.chars, first, end);
        let value: i16 = if negative {
            if magnitude <= 32768 {
                (0 - (magnitude as i32)) as i16
            } else {
                0
            }
        } else {
            if magnitude <= 32767 {
                magnitude as i16
            } else {
                0
            }
        };
        self.tokens.push(Token::Number(value));
        self.position = end;
    }

    /// Lexes the rest of the text: the tokens made so far and those of what
    /// is left to read, or the first character that no token can hold, with
    /// its line and column.
    pub fn lex(self) -> (result: Result<Vec<Token>, InvalidCharacter>)
        requires
            self.wf(),
        ensures
            lexed(result) == self@.finish(),
    {
        let mut lexer = self;
        let ghost s = self@.source;
        while lexer.position < lexer.chars.len()
            invariant
                lexer.wf(),
                lexer@.source == s,
                lexer@.finish() == self@.finish(),
            decreases lexer.chars.len() - lexer.position,
        {
            let character = lexer.chars[lexer.position];
            let ghost pos = lexer.position as int;
            let ghost made = lexer@.tokens;
            if letter(character) {
                lexer.lex_string();
                proof {
                    token_made(made, lexer@.tokens.last(), lex_from(s, lexer.position as int));
                }
            } else if digit(character) || (character == '-' && lexer.position + 1
                < lexer.chars.len() && digit(lexer.chars[lexer.position + 1])) {
                lexer.lex_number();
                proof {
                    token_made(made, lexer@.tokens.last(), lex_from(s, lexer.position as int));
                }
            } else if character == '\n' {
                let ghost before = lexer.tokens@;
                lexer.tokens.push(Token::Newline);
                lexer.position += 1;
                proof {
                    assert(token_views(lexer.tokens@) == token_views(before).push(
                        TokenView::Newline,
                    ));
                    token_made(made, TokenView::Newline, lex_from(s, pos + 1));
                }
            } else if character == ' ' || character == '\t' {
                lexer.position += 1;
            } else {
                let (line, column) = line_and_column(&lexer.chars, lexer.position);
                return Err(InvalidCharacter { character, line_column: (line, column) });
            }
        }
        Ok(lexer.tokens)
    }
}

/// Two words that differ only in the case of their letters spell the same
/// mnemonic, or neither spells one.
pub proof fn keyword_ignores_case(a: Seq<char>, b: Seq<char>)
    requires
        a.len() == b.len(),
        forall|i: int| 0 <= i < a.len() ==> to_upper(a[i]) == to_upper(b[i]),
    ensures
        keyword(a) == keyword(b),
{
    assert(upper(a) =~= upper(b));
}

/// Three characters in a row are equal to three others exactly when they are
/// equal one by one.
proof fn spelled(a: char, b: char, c: char)
    ensures
        forall|x: char, y: char, z: char|
            (#[trigger] seq![x, y, z] == seq![a, b, c]) <==> (x == a && y == b && z == c),
{
    assert forall|x: char, y: char, z: char|
        (#[trigger] seq![x, y, z] == seq![a, b, c]) <==> (x == a && y == b && z == c) by {}
}

/// To put a token in front of the rest and the tokens made so far in front
/// of that is to put the tokens made so far, with the token added, in front
/// of the rest.
proof fn token_made(
    made: Seq<TokenView>,
    token: TokenView,
    rest: Result<Seq<TokenView>, InvalidCharacter>,
)
    ensures
        (match after(token, rest) {
            Ok(tokens) => Ok(made + tokens),
            Err(e) => Err(e),
        }) == (match rest {
            Ok(tokens) => Ok(made.push(token) + tokens),
            Err(e) => Err(e),
        }),
{
    if let Ok(tokens) = rest {
        assert(made + (seq![token] + tokens) == made.push(token) + tokens);
    }
}

/// The line and the column of position `pos`, both counted from one.
fn line_and_column(chars: &Vec<char>, pos: usize) -> (place: (usize, usize))
    requires
        pos < chars.len(),
    ensures
        place.0 == line_of(chars@, pos as int),
        place.1 == column_of(chars@, pos as int),
{
    let mut line: usize = 1;
    let mut column: usize = 1;
    let mut i: usize = 0;
    while i < pos
        invariant
            i <= pos < chars.len(),
            line == line_of(chars@, i as int),
            column == column_of(chars@, i as int),
        decreases pos - i,
    {
        proof {
            line_column_bounds(chars@, i as int);
        }
        if chars[i] == '\n' {
            line += 1;
            column = 1;
        } else {
            column += 1;
        }
        i += 1;
    }
    (line, column)
}

} // verus!
