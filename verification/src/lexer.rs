//! Splitting a path description into command letters and numbers.
//!
//! White space and commas separate tokens and are dropped. A number is the
//! longest text of the shape sign, digits, point, digits, `e`, sign, digits
//! (each part optional) that starts where the previous token ended; it is
//! well formed if its mantissa has a digit and its exponent, when there is
//! one, has a digit too.

use vstd::prelude::*;
use crate::fixed::Fixed;
use crate::number::{all_digits, is_digit, numeral_value, Numeral};
use crate::svg_path::{
    err_invalid_number,
    err_unexpected_character,
    SvgParseError,
    SvgParseErrorView,
};
use crate::text::chars_of;

verus! {

/// One token of a path description.
#[derive(Clone, Copy, Debug, PartialEq, Eq, Structural)]
pub enum Token {
    Command(char),
    Number(Fixed),
}

/// Whether `c` separates tokens.
pub open spec fn is_separator(c: char) -> bool {
    c == ' ' || c == '\t' || c == '\n' || c == '\r' || c == ','
}

/// Whether `c` is one of the twenty command letters.
pub open spec fn is_command_letter(c: char) -> bool {
    c == 'M' || c == 'm' || c == 'L' || c == 'l' || c == 'H' || c == 'h' || c == 'V' || c == 'v'
        || c == 'C' || c == 'c' || c == 'S' || c == 's' || c == 'Q' || c == 'q' || c == 'T' || c
        == 't' || c == 'A' || c == 'a' || c == 'Z' || c == 'z'
}

/// Whether `c` is a plus or minus sign.
pub open spec fn is_sign(c: char) -> bool {
    c == '-' || c == '+'
}

/// Whether a number may start with `c`.
pub open spec fn starts_number(c: char) -> bool {
    is_sign(c) || c == '.' || is_digit(c)
}

/// The end of the run of digits that starts at `from`.
pub open spec fn digits_end(s: Seq<char>, from: int) -> int
    decreases s.len() - from,
{
    if 0 <= from < s.len() && is_digit(s[from]) {
        digits_end(s, from + 1)
    } else {
        from
    }
}

/// Where the parts of a number lie in the text.
pub struct NumberSpan {
    pub negative: bool,
    pub int_start: int,
    pub int_end: int,
    pub frac_start: int,
    pub frac_end: int,
    pub has_exponent: bool,
    pub exponent_negative: bool,
    pub exponent_start: int,
    pub end: int,
}

/// The longest number-shaped text that starts at `pos`.
pub open spec fn number_span(s: Seq<char>, pos: int) -> NumberSpan {
    let signed = 0 <= pos < s.len() && is_sign(s[pos]);
    let int_start = if signed {
        pos + 1
    } else {
        pos
    };
    let int_end = digits_end(s, int_start);
    let has_point = 0 <= int_end < s.len() && s[int_end] == '.';
    let frac_start = if has_point {
        int_end + 1
    } else {
        int_end
    };
    let frac_end = if has_point {
        digits_end(s, frac_start)
    } else {
        int_end
    };
    let has_exponent = 0 <= frac_end < s.len() && (s[frac_end] == 'e' || s[frac_end] == 'E');
    let exponent_signed = has_exponent && frac_end + 1 < s.len() && is_sign(s[frac_end + 1]);
    let exponent_start = if !has_exponent {
        frac_end
    } else if exponent_signed {
        frac_end + 2
    } else {
        frac_end + 1
    };
    let end = if has_exponent {
        digits_end(s, exponent_start)
    } else {
        frac_end
    };
    NumberSpan {
        negative: signed && s[pos] == '-',
        int_start,
        int_end,
        frac_start,
        frac_end,
        has_exponent,
        exponent_negative: exponent_signed && s[frac_end + 1] == '-',
        exponent_start,
        end,
    }
}

impl NumberSpan {
    /// Whether the text is a number: a digit in the mantissa, and a digit in
    /// the exponent if there is one.
    pub open spec fn well_formed(self) -> bool {
        &&& (self.int_end - self.int_start) + (self.frac_end - self.frac_start) >= 1
        &&& self.has_exponent ==> self.end - self.exponent_start >= 1
    }

    /// The parts of the number.
    pub open spec fn numeral(self, s: Seq<char>) -> Numeral {
        Numeral {
            negative: self.negative,
            digits: s.subrange(self.int_start, self.int_end) + s.subrange(
                self.frac_start,
                self.frac_end,
            ),
            fraction_len: (self.frac_end - self.frac_start) as nat,
            exponent_negative: self.exponent_negative,
            exponent_digits: s.subrange(self.exponent_start, self.end),
        }
    }
}

/// `first` put in front of a run of tokens, if there is one.
pub open spec fn prepend(first: Token, rest: Result<Seq<Token>, SvgParseErrorView>) -> Result<
    Seq<Token>,
    SvgParseErrorView,
> {
    match rest {
        Ok(tokens) => Ok(seq![first] + tokens),
        Err(e) => Err(e),
    }
}

/// The tokens of `s` from character `pos` on, or the first error.
pub open spec fn lex(s: Seq<char>, pos: int) -> Result<Seq<Token>, SvgParseErrorView>
    decreases s.len() - pos,
{
    if pos < 0 || pos >= s.len() {
        Ok(Seq::empty())
    } else if is_separator(s[pos]) {
        lex(s, pos + 1)
    } else if is_command_letter(s[pos]) {
        prepend(Token::Command(s[pos]), lex(s, pos + 1))
    } else if starts_number(s[pos]) {
        let span = number_span(s, pos);
        proof {
            lemma_span_advances(s, pos);
        }
        if !span.well_formed() {
            Err(err_invalid_number(s.subrange(pos, span.end), span.end as nat))
        } else {
            prepend(
                Token::Number(Fixed { micros: span.numeral(s).micros() as i64 }),
                lex(s, span.end),
            )
        }
    } else {
        Err(err_unexpected_character(s[pos], pos as nat))
    }
}

/// The tokens of the path description `d`, or the first error.
pub open spec fn tokens_of(d: Seq<char>) -> Result<Seq<Token>, SvgParseErrorView> {
    lex(d, 0)
}

/// A run of digits ends at or after its start and inside the text.
pub proof fn lemma_digits_end_bounds(s: Seq<char>, from: int)
    requires
        0 <= from <= s.len(),
    ensures
        from <= digits_end(s, from) <= s.len(),
        from < s.len() && is_digit(s[from]) ==> from < digits_end(s, from),
    decreases s.len() - from,
{
    if from < s.len() && is_digit(s[from]) {
        lemma_digits_end_bounds(s, from + 1);
    }
}

/// A number takes at least one character.
pub proof fn lemma_span_advances(s: Seq<char>, pos: int)
    requires
        0 <= pos < s.len(),
        starts_number(s[pos]),
    ensures
        pos < number_span(s, pos).end <= s.len(),
{
    let span = number_span(s, pos);
    lemma_digits_end_bounds(s, span.int_start);
    if span.frac_start <= s.len() {
        lemma_digits_end_bounds(s, span.frac_start);
    }
    if span.exponent_start <= s.len() {
        lemma_digits_end_bounds(s, span.exponent_start);
    }
}

/// `done` followed by what is still to come.
pub open spec fn after(done: Seq<Token>, rest: Result<Seq<Token>, SvgParseErrorView>) -> Result<
    Seq<Token>,
    SvgParseErrorView,
> {
    match rest {
        Ok(tokens) => Ok(done + tokens),
        Err(e) => Err(e),
    }
}

/// A token put at the end of what is done is the token put in front of
/// what is to come.
proof fn lemma_after_push(
    done: Seq<Token>,
    first: Token,
    rest: Result<Seq<Token>, SvgParseErrorView>,
)
    ensures
        after(done.push(first), rest) == after(done, prepend(first, rest)),
{
    match rest {
        Ok(tokens) => {
            assert(done.push(first) + tokens =~= done + (seq![first] + tokens));
        },
        Err(_) => {},
    }
}

/// What `tokenize` returned, as a specification value.
pub open spec fn lexed(r: Result<Vec<Token>, SvgParseError>) -> Result<
    Seq<Token>,
    SvgParseErrorView,
> {
    match r {
        Ok(tokens) => Ok(tokens@),
        Err(e) => Err(e@),
    }
}

/// Whether `c` is a digit.
fn is_digit_char(c: char) -> (r: bool)
    ensures
        r == is_digit(c),
{
    '0' <= c && c <= '9'
}

/// Whether `c` separates tokens.
fn is_separator_char(c: char) -> (r: bool)
    ensures
        r == is_separator(c),
{
    c == ' ' || c == '\t' || c == '\n' || c == '\r' || c == ','
}

/// Whether `c` is a command letter.
fn is_command_char(c: char) -> (r: bool)
    ensures
        r == is_command_letter(c),
{
    c == 'M' || c == 'm' || c == 'L' || c == 'l' || c == 'H' || c == 'h' || c == 'V' || c == 'v'
        || c == 'C' || c == 'c' || c == 'S' || c == 's' || c == 'Q' || c == 'q' || c == 'T' || c
        == 't' || c == 'A' || c == 'a' || c == 'Z' || c == 'z'
}

/// Copies the run of digits that starts at `from` to the end of `out` and
/// returns where the run ends.
fn scan_digits(chars: &Vec<char>, from: usize, out: &mut Vec<char>) -> (end: usize)
    requires
        from <= chars@.len(),
        all_digits(old(out)@),
    ensures
        end as int == digits_end(chars@, from as int),
        from <= end <= chars@.len(),
        final(out)@ == old(out)@ + chars@.subrange(from as int, end as int),
        all_digits(final(out)@),
{
    let mut i: usize = from;
    assert(out@ =~= old(out)@ + chars@.subrange(from as int, from as int));
    while i < chars.len() && is_digit_char(chars[i])
        invariant
            from <= i <= chars@.len(),
            digits_end(chars@, from as int) == digits_end(chars@, i as int),
            out@ == old(out)@ + chars@.subrange(from as int, i as int),
            all_digits(out@),
        decreases chars@.len() - i,
    {
        out.push(chars[i]);
        assert(chars@.subrange(from as int, i + 1) =~= chars@.subrange(from as int, i as int).push(
            chars@[i as int],
        ));
        i = i + 1;
    }
    i
}

/// A number found in the text: where it ends, whether it is well formed,
/// and, if it is, its value.
struct ScannedNumber {
    end: usize,
    valid: bool,
    value: Fixed,
}

/// Reads the number that starts at `pos`.
fn scan_number(chars: &Vec<char>, pos: usize) -> (r: ScannedNumber)
    requires
        pos < chars@.len(),
        starts_number(chars@[pos as int]),
    ensures
        r.end as int == number_span(chars@, pos as int).end,
        pos < r.end <= chars@.len(),
        r.valid == number_span(chars@, pos as int).well_formed(),
        r.valid ==> r.value.micros as int == number_span(chars@, pos as int).numeral(
            chars@,
        ).micros(),
{
    let ghost span = number_span(chars@, pos as int);
    let len: usize = chars.len();
    let first: char = chars[pos];
    let signed: bool = first == '-' || first == '+';
    let negative: bool = first == '-';
    let int_start: usize = if signed {
        pos + 1
    } else {
        pos
    };
    let mut digits: Vec<char> = Vec::new();
    let int_end: usize = scan_digits(chars, int_start, &mut digits);
    proof {
        lemma_digits_end_bounds(chars@, int_start as int);
    }
    let has_point: bool = int_end < len && chars[int_end] == '.';
    let mut frac_start: usize = int_end;
    let mut frac_end: usize = int_end;
    if has_point {
        frac_start = int_end + 1;
        frac_end = scan_digits(chars, frac_start, &mut digits);
    }
    assert(digits@ =~= span.numeral(chars@).digits) by {
        assert(chars@.subrange(int_end as int, int_end as int) =~= Seq::<char>::empty());
    }
    let has_exponent: bool = frac_end < len && (chars[frac_end] == 'e' || chars[frac_end] == 'E');
    let mut exponent_negative: bool = false;
    let mut exponent_start: usize = frac_end;
    let mut end: usize = frac_end;
    let mut exponent_digits: Vec<char> = Vec::new();
    if has_exponent {
        exponent_start = frac_end + 1;
        if exponent_start < len && (chars[exponent_start] == '-' || chars[exponent_start] == '+') {
            exponent_negative = chars[exponent_start] == '-';
            exponent_start = exponent_start + 1;
        }
        end = scan_digits(chars, exponent_start, &mut exponent_digits);
    }
    assert(exponent_digits@ =~= span.numeral(chars@).exponent_digits);
    let valid: bool = (int_end - int_start) + (frac_end - frac_start) >= 1 && (!has_exponent || end
        - exponent_start >= 1);
    let value: Fixed = if valid {
        numeral_value(negative, &digits, frac_end - frac_start, exponent_negative, &exponent_digits)
    } else {
        Fixed { micros: 0 }
    };
    ScannedNumber { end, valid, value }
}

/// Splits a path description into tokens.
///
/// Fails at the first character that starts no token, and at the end of
/// the first number-shaped text that is not a number.
pub fn tokenize(d: &str) -> (r: Result<Vec<Token>, SvgParseError>)
    ensures
        lexed(r) == tokens_of(d@),
{
    let chars: Vec<char> = chars_of(d);
    let mut tokens: Vec<Token> = Vec::new();
    let mut pos: usize = 0;
    assert(Seq::<Token>::empty() + lex(chars@, 0)->Ok_0 =~= lex(chars@, 0)->Ok_0);
    while pos < chars.len()
        invariant
            pos <= chars@.len(),
            chars@ == d@,
            after(tokens@, lex(chars@, pos as int)) == lex(chars@, 0),
        decreases chars@.len() - pos,
    {
        let c: char = chars[pos];
        if is_separator_char(c) {
            pos = pos + 1;
        } else if is_command_char(c) {
            proof {
                lemma_after_push(tokens@, Token::Command(c), lex(chars@, pos + 1));
            }
            tokens.push(Token::Command(c));
            pos = pos + 1;
        } else if c == '-' || c == '+' || c == '.' || is_digit_char(c) {
            let scanned: ScannedNumber = scan_number(&chars, pos);
            if !scanned.valid {
                return Err(SvgParseError::invalid_number(&chars, pos, scanned.end));
            }
            proof {
                lemma_after_push(
                    tokens@,
                    Token::Number(scanned.value),
                    lex(chars@, scanned.end as int),
                );
            }
            tokens.push(Token::Number(scanned.value));
            pos = scanned.end;
        } else {
            return Err(SvgParseError::unexpected_character(c, pos));
        }
    }
    assert(tokens@ + Seq::<Token>::empty() =~= tokens@);
    Ok(tokens)
}

} // verus!
