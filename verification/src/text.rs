//! Characters, decimal numbers and the few string operations the rest of the
//! crate is built on.

use vstd::prelude::*;

verus! {

/// `String::push` of the standard library, taken on trust: it appends one
/// character to the end of the string and leaves the characters before it
/// as they were.
pub assume_specification[ String::push ](s: &mut String, c: char)
    ensures
        final(s)@ == old(s)@.push(c),
;

/// An ASCII letter, upper or lower case.
pub open spec fn is_letter(c: char) -> bool {
    ('a' <= c && c <= 'z') || ('A' <= c && c <= 'Z')
}

/// An ASCII decimal digit.
pub open spec fn is_digit(c: char) -> bool {
    '0' <= c && c <= '9'
}

/// A space or a horizontal tab: the characters that separate tokens on a
/// line without being tokens themselves.
pub open spec fn is_blank(c: char) -> bool {
    c == ' ' || c == '\t'
}

/// The upper-case form of an ASCII letter; any other character is unchanged.
pub open spec fn to_upper(c: char) -> char {
    if 'a' <= c && c <= 'z' {
        ((c as int) - 32) as char
    } else {
        c
    }
}

/// `word` with every ASCII letter in upper case.
pub open spec fn upper(word: Seq<char>) -> Seq<char> {
    Seq::new(word.len(), |i: int| to_upper(word[i]))
}

/// The number a single digit stands for.
pub open spec fn digit_value(c: char) -> int {
    (c as int) - 48
}

/// The digit that stands for `d`, for `d` below ten.
pub open spec fn digit_char(d: int) -> char {
    (d + 48) as char
}

/// The number that a run of digits denotes in base ten. The empty run
/// denotes zero.
pub open spec fn decimal_value(digits: Seq<char>) -> int
    decreases digits.len(),
{
    if digits.len() == 0 {
        0
    } else {
        decimal_value(digits.drop_last()) * 10 + digit_value(digits.last())
    }
}

/// Every character of `s` is a decimal digit.
pub open spec fn all_digits(s: Seq<char>) -> bool {
    forall|i: int| 0 <= i < s.len() ==> is_digit(#[trigger] s[i])
}

/// The digits of a natural number in base ten, most significant first,
/// without leading zeros. Zero is the single digit `0`.
pub open spec fn digits_of(n: nat) -> Seq<char>
    decreases n,
{
    if n < 10 {
        seq![digit_char(n as int)]
    } else {
        digits_of(n / 10).push(digit_char((n % 10) as int))
    }
}

/// An integer written in base ten, with a leading `-` when it is negative.
pub open spec fn decimal(n: int) -> Seq<char> {
    if n < 0 {
        seq!['-'] + digits_of((-n) as nat)
    } else {
        digits_of(n as nat)
    }
}

/// What a piece of text means as a signed 16-bit number: an optional `+` or
/// `-`, then at least one digit and nothing else, denoting a value that a
/// 16-bit signed integer can hold. `None` for any other text.
pub open spec fn parse_i16(text: Seq<char>) -> Option<i16> {
    let signed = text.len() > 0 && (text[0] == '-' || text[0] == '+');
    let digits = if signed {
        text.subrange(1, text.len() as int)
    } else {
        text
    };
    let magnitude = decimal_value(digits);
    let value = if signed && text[0] == '-' {
        -magnitude
    } else {
        magnitude
    };
    if digits.len() > 0 && all_digits(digits) && -32768 <= value <= 32767 {
        Some(value as i16)
    } else {
        None
    }
}

/// Whether `c` is an ASCII letter.
pub fn letter(c: char) -> (r: bool)
    ensures
        r == is_letter(c),
{
    (c >= 'a' && c <= 'z') || (c >= 'A' && c <= 'Z')
}

/// Whether `c` is an ASCII decimal digit.
pub fn digit(c: char) -> (r: bool)
    ensures
        r == is_digit(c),
{
    c >= '0' && c <= '9'
}

/// The upper-case form of `c`.
pub fn upper_case(c: char) -> (r: char)
    ensures
        r == to_upper(c),
{
    if c >= 'a' && c <= 'z' {
        let code: u8 = c as u8;
        (code - 32) as char
    } else {
        c
    }
}

/// The characters of `source`, in order.
pub fn chars_of(source: &str) -> (chars: Vec<char>)
    ensures
        chars@ == source@,
{
    let mut chars: Vec<char> = Vec::new();
    for c in it: source.chars()
        invariant
            it.seq() == source@,
            chars@ == it.seq().take(it.index()),
    {
        chars.push(c);
    }
    chars
}

/// A run of digits is worth at least zero, and a longer run of which it is
/// the start is worth at least as much.
pub proof fn decimal_value_grows(digits: Seq<char>, shorter: int)
    requires
        all_digits(digits),
        0 <= shorter <= digits.len(),
    ensures
        0 <= decimal_value(digits.take(shorter)) <= decimal_value(digits),
    decreases digits.len(),
{
    if shorter == digits.len() {
        assert(digits.take(shorter) == digits);
        if digits.len() > 0 {
            decimal_value_grows(digits.drop_last(), digits.len() - 1);
        }
    } else {
        decimal_value_grows(digits.drop_last(), shorter);
        assert(digits.drop_last().take(shorter) == digits.take(shorter));
        decimal_value_grows(digits.drop_last(), digits.len() - 1);
    }
}

/// The value of the digits `chars[from..to]`, as far as it stays below
/// 100000; a larger value is reported as 100000.
pub(crate) fn bounded_value(chars: &Vec<char>, from: usize, to: usize) -> (value: u32)
    requires
        from <= to <= chars.len(),
        all_digits(chars@.subrange(from as int, to as int)),
    ensures
        value <= 100000,
        value < 100000 ==> value == decimal_value(chars@.subrange(from as int, to as int)),
        value == 100000 ==> decimal_value(chars@.subrange(from as int, to as int)) >= 100000,
{
    let ghost run = chars@.subrange(from as int, to as int);
    let mut value: u32 = 0;
    let mut i: usize = from;
    while i < to
        invariant
            from <= i <= to <= chars.len(),
            run == chars@.subrange(from as int, to as int),
            all_digits(run),
            value <= 100000,
            value < 100000 ==> value == decimal_value(run.take(i - from)),
            value == 100000 ==> decimal_value(run.take(i - from)) >= 100000,
        decreases to - i,
    {
        let c = chars[i];
        proof {
            let next = run.take(i - from + 1);
            decimal_value_grows(next, i - from);
            assert(next.take(i - from) == run.take(i - from));
        }
        if value < 100000 {
            let d: u32 = (c as u8 - 48) as u32;
            value = value * 10 + d;
            if value > 100000 {
                value = 100000;
            }
        }
        i += 1;
    }
    proof {
        assert(run.take(to - from) == run);
    }
    value
}

/// Whether `chars` holds nothing but digits from position `from` on.
fn digits_only(chars: &Vec<char>, from: usize) -> (r: bool)
    requires
        from <= chars.len(),
    ensures
        r == all_digits(chars@.subrange(from as int, chars.len() as int)),
{
    let ghost run = chars@.subrange(from as int, chars.len() as int);
    let mut i = from;
    while i < chars.len()
        invariant
            from <= i <= chars.len(),
            run == chars@.subrange(from as int, chars.len() as int),
            forall|j: int| 0 <= j < i - from ==> is_digit(#[trigger] run[j]),
        decreases chars.len() - i,
    {
        if !digit(chars[i]) {
            assert(!is_digit(run[i - from]));
            return false;
        }
        i += 1;
    }
    true
}

/// Reads `text` as a signed 16-bit number in base ten.
pub fn parse_number(text: &str) -> (number: Option<i16>)
    ensures
        number == parse_i16(text@),
{
    let chars = chars_of(text);
    let signed = chars.len() > 0 && (chars[0] == '-' || chars[0] == '+');
    let first: usize = if signed {
        1
    } else {
        0
    };
    assert(chars@.subrange(0, chars.len() as int) == chars@);
    if first == chars.len() || !digits_only(&chars, first) {
        return None;
    }
    let magnitude = bounded_value(&chars, first, chars.len());
    if signed && chars[0] == '-' {
        if magnitude <= 32768 {
            Some((0 - (magnitude as i32)) as i16)
        } else {
            None
        }
    } else {
        if magnitude <= 32767 {
            Some(magnitude as i16)
        } else {
            None
        }
    }
}

/// Appends the digits of `n` to `out`.
pub fn push_digits(out: &mut String, n: u64)
    ensures
        final(out)@ == old(out)@ + digits_of(n as nat),
    decreases n,
{
    if n >= 10 {
        push_digits(out, n / 10);
    }
    let d: u8 = (n % 10) as u8;
    out.push((d + 48) as char);
}

/// Appends `n`, written in base ten, to `out`.
pub fn push_decimal(out: &mut String, n: i64)
    requires
        n > i64::MIN,
    ensures
        final(out)@ == old(out)@ + decimal(n as int),
{
    if n < 0 {
        out.push('-');
        push_digits(out, (-n) as u64);
    } else {
        push_digits(out, n as u64);
    }
}

/// Appends the characters of `text` to `out`.
pub fn push_text(out: &mut String, text: &str)
    ensures
        final(out)@ == old(out)@ + text@,
{
    out.append(text);
}

} // verus!
