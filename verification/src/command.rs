//! The grammar of a path description: command letters and their operands.
//!
//! A command letter is followed by any number of operand groups, each of
//! the size its command asks for. A move-to needs one coordinate pair; any
//! further pairs behind it are line-tos. A close-path takes no operands.
//! A smooth curve reflects the previous control point only when the
//! command carried out before it was a curve of the same degree: the first
//! operand group of a smooth command looks at the command letter in front
//! of it, and every later group follows a smooth curve and reflects.
//!
//! An error says where it arose: the index of the token that is at fault,
//! or the index at which a missing operand was due.

use vstd::prelude::*;
use crate::fixed::Fixed;
use crate::lexer::Token;
use crate::svg_path::{
    err_expected_number,
    err_short_arc,
    err_short_point,
    err_unexpected_number,
    err_unknown_command,
    SvgParseError,
    SvgParseErrorView,
};

verus! {

/// One command with one group of operands, as written: `relative` says
/// whether the coordinates are offsets from the current point.
#[derive(Clone, Copy, Debug, PartialEq, Eq, Structural)]
pub enum PathCommand {
    MoveTo { relative: bool, x: Fixed, y: Fixed },
    LineTo { relative: bool, x: Fixed, y: Fixed },
    HorizontalTo { relative: bool, x: Fixed },
    VerticalTo { relative: bool, y: Fixed },
    CubicTo { relative: bool, c1x: Fixed, c1y: Fixed, c2x: Fixed, c2y: Fixed, x: Fixed, y: Fixed },
    SmoothCubicTo { relative: bool, reflect: bool, c2x: Fixed, c2y: Fixed, x: Fixed, y: Fixed },
    QuadraticTo { relative: bool, qx: Fixed, qy: Fixed, x: Fixed, y: Fixed },
    SmoothQuadraticTo { relative: bool, reflect: bool, x: Fixed, y: Fixed },
    ArcTo {
        relative: bool,
        rx: Fixed,
        ry: Fixed,
        x_rotation: Fixed,
        large_arc: bool,
        sweep: bool,
        x: Fixed,
        y: Fixed,
    },
    ClosePath,
}

/// A result of reading tokens.
pub type Parsed<T> = Result<T, SvgParseErrorView>;

/// The upper-case form of a command letter and whether it was written in
/// lower case; `None` for any other character.
pub open spec fn letter_kind(c: char) -> Option<(char, bool)> {
    if c == 'M' || c == 'L' || c == 'H' || c == 'V' || c == 'C' || c == 'S' || c == 'Q' || c == 'T'
        || c == 'A' || c == 'Z' {
        Some((c, false))
    } else if c == 'm' {
        Some(('M', true))
    } else if c == 'l' {
        Some(('L', true))
    } else if c == 'h' {
        Some(('H', true))
    } else if c == 'v' {
        Some(('V', true))
    } else if c == 'c' {
        Some(('C', true))
    } else if c == 's' {
        Some(('S', true))
    } else if c == 'q' {
        Some(('Q', true))
    } else if c == 't' {
        Some(('T', true))
    } else if c == 'a' {
        Some(('A', true))
    } else if c == 'z' {
        Some(('Z', true))
    } else {
        None
    }
}

/// How many numbers one operand group of the command `kind` holds.
pub open spec fn group_width(kind: char) -> int {
    if kind == 'H' || kind == 'V' {
        1
    } else if kind == 'L' || kind == 'T' {
        2
    } else if kind == 'S' || kind == 'Q' {
        4
    } else if kind == 'C' {
        6
    } else {
        7
    }
}

/// Whether a smooth command of kind `kind` reflects the previous control
/// point, given the command letter that came before it.
pub open spec fn reflects(kind: char, last: char) -> bool {
    if kind == 'S' {
        last == 'C' || last == 'S'
    } else if kind == 'T' {
        last == 'Q' || last == 'T'
    } else {
        false
    }
}

/// The number that is token `i`.
pub open spec fn number_at(tokens: Seq<Token>, i: int) -> Parsed<Fixed> {
    match tokens[i] {
        Token::Number(n) => Ok(n),
        Token::Command(c) => Err(err_expected_number(c, i as nat)),
    }
}

/// The coordinate pair that starts at token `i`. Where the input ends
/// before the pair does, the error lies where the input ends.
pub open spec fn point_at(tokens: Seq<Token>, i: int) -> Parsed<(Fixed, Fixed)> {
    if tokens.len() - i < 2 {
        Err(err_short_point(tokens.len()))
    } else {
        match number_at(tokens, i) {
            Err(e) => Err(e),
            Ok(x) => match number_at(tokens, i + 1) {
                Err(e) => Err(e),
                Ok(y) => Ok((x, y)),
            },
        }
    }
}

/// The five numbers in front of an arc's end point, starting at token `i`.
/// Where the input ends before they do, the error lies where the input
/// ends.
pub open spec fn arc_shape_at(tokens: Seq<Token>, i: int) -> Parsed<
    (Fixed, Fixed, Fixed, Fixed, Fixed),
> {
    if tokens.len() - i < 5 {
        Err(err_short_arc(tokens.len()))
    } else {
        match number_at(tokens, i) {
            Err(e) => Err(e),
            Ok(rx) => match number_at(tokens, i + 1) {
                Err(e) => Err(e),
                Ok(ry) => match number_at(tokens, i + 2) {
                    Err(e) => Err(e),
                    Ok(rotation) => match number_at(tokens, i + 3) {
                        Err(e) => Err(e),
                        Ok(large) => match number_at(tokens, i + 4) {
                            Err(e) => Err(e),
                            Ok(sweep) => Ok((rx, ry, rotation, large, sweep)),
                        },
                    },
                },
            },
        }
    }
}

/// The command that the operand group at token `i` makes.
pub open spec fn group_at(
    kind: char,
    relative: bool,
    reflect: bool,
    tokens: Seq<Token>,
    i: int,
) -> Parsed<PathCommand> {
    if kind == 'H' {
        match number_at(tokens, i) {
            Err(e) => Err(e),
            Ok(x) => Ok(PathCommand::HorizontalTo { relative, x }),
        }
    } else if kind == 'V' {
        match number_at(tokens, i) {
            Err(e) => Err(e),
            Ok(y) => Ok(PathCommand::VerticalTo { relative, y }),
        }
    } else if kind == 'L' {
        match point_at(tokens, i) {
            Err(e) => Err(e),
            Ok(p) => Ok(PathCommand::LineTo { relative, x: p.0, y: p.1 }),
        }
    } else if kind == 'T' {
        match point_at(tokens, i) {
            Err(e) => Err(e),
            Ok(p) => Ok(PathCommand::SmoothQuadraticTo { relative, reflect, x: p.0, y: p.1 }),
        }
    } else if kind == 'S' {
        match point_at(tokens, i) {
            Err(e) => Err(e),
            Ok(c2) => match point_at(tokens, i + 2) {
                Err(e) => Err(e),
                Ok(p) => Ok(
                    PathCommand::SmoothCubicTo {
                        relative,
                        reflect,
                        c2x: c2.0,
                        c2y: c2.1,
                        x: p.0,
                        y: p.1,
                    },
                ),
            },
        }
    } else if kind == 'Q' {
        match point_at(tokens, i) {
            Err(e) => Err(e),
            Ok(q) => match point_at(tokens, i + 2) {
                Err(e) => Err(e),
                Ok(p) => Ok(
                    PathCommand::QuadraticTo { relative, qx: q.0, qy: q.1, x: p.0, y: p.1 },
                ),
            },
        }
    } else if kind == 'C' {
        match point_at(tokens, i) {
            Err(e) => Err(e),
            Ok(c1) => match point_at(tokens, i + 2) {
                Err(e) => Err(e),
                Ok(c2) => match point_at(tokens, i + 4) {
                    Err(e) => Err(e),
                    Ok(p) => Ok(
                        PathCommand::CubicTo {
                            relative,
                            c1x: c1.0,
                            c1y: c1.1,
                            c2x: c2.0,
                            c2y: c2.1,
                            x: p.0,
                            y: p.1,
                        },
                    ),
                },
            },
        }
    } else {
        match arc_shape_at(tokens, i) {
            Err(e) => Err(e),
            Ok(a) => match point_at(tokens, i + 5) {
                Err(e) => Err(e),
                Ok(p) => Ok(
                    PathCommand::ArcTo {
                        relative,
                        rx: a.0,
                        ry: a.1,
                        x_rotation: a.2,
                        large_arc: a.3.micros != 0,
                        sweep: a.4.micros != 0,
                        x: p.0,
                        y: p.1,
                    },
                ),
            },
        }
    }
}

/// The commands made by the operand groups from token `i` on, up to the
/// first token that is not a number, and the index of that token.
/// `reflect` says whether the first group, if it is a smooth curve,
/// reflects; every later group follows a group of its own kind.
pub open spec fn groups(
    kind: char,
    relative: bool,
    reflect: bool,
    tokens: Seq<Token>,
    i: int,
) -> Parsed<(Seq<PathCommand>, int)>
    decreases tokens.len() - i,
{
    if 0 <= i < tokens.len() && tokens[i] is Number {
        match group_at(kind, relative, reflect, tokens, i) {
            Err(e) => Err(e),
            Ok(command) => match groups(
                kind,
                relative,
                reflects(kind, kind),
                tokens,
                i + group_width(kind),
            ) {
                Err(e) => Err(e),
                Ok(rest) => Ok((seq![command] + rest.0, rest.1)),
            },
        }
    } else {
        Ok((Seq::empty(), i))
    }
}

/// The commands that one command letter makes with the operands from
/// token `i` on, and the index of the token behind them.
pub open spec fn letter_commands(
    kind: char,
    relative: bool,
    last: char,
    tokens: Seq<Token>,
    i: int,
) -> Parsed<(Seq<PathCommand>, int)> {
    if kind == 'Z' {
        Ok((seq![PathCommand::ClosePath], i))
    } else if kind == 'M' {
        match point_at(tokens, i) {
            Err(e) => Err(e),
            Ok(p) => match groups('L', relative, false, tokens, i + 2) {
                Err(e) => Err(e),
                Ok(rest) => Ok(
                    (seq![PathCommand::MoveTo { relative, x: p.0, y: p.1 }] + rest.0, rest.1),
                ),
            },
        }
    } else {
        groups(kind, relative, reflects(kind, last), tokens, i)
    }
}

/// The commands from token `i` on, `last` being the command letter in
/// front of it (a space at the start), or the first error.
pub open spec fn commands_from(tokens: Seq<Token>, i: int, last: char) -> Parsed<Seq<PathCommand>>
    decreases tokens.len() - i,
{
    if i < 0 || i >= tokens.len() {
        Ok(Seq::empty())
    } else {
        match tokens[i] {
            Token::Number(_) => Err(err_unexpected_number(i as nat)),
            Token::Command(c) => match letter_kind(c) {
                None => Err(err_unknown_command(c, i as nat)),
                Some(letter) => {
                    let found = letter_commands(letter.0, letter.1, last, tokens, i + 1);
                    proof {
                        lemma_letter_advances(letter.0, letter.1, last, tokens, i + 1);
                    }
                    if found is Err {
                        Err(found->Err_0)
                    } else {
                        match commands_from(tokens, found->Ok_0.1, letter.0) {
                            Err(e) => Err(e),
                            Ok(rest) => Ok(found->Ok_0.0 + rest),
                        }
                    }
                },
            },
        }
    }
}

/// The commands of a whole token sequence, or the first error.
pub open spec fn commands_of(tokens: Seq<Token>) -> Parsed<Seq<PathCommand>> {
    commands_from(tokens, 0, ' ')
}

/// The operand groups of a command end at or behind their start, and
/// inside the token sequence.
pub proof fn lemma_groups_advance(
    kind: char,
    relative: bool,
    reflect: bool,
    tokens: Seq<Token>,
    i: int,
)
    requires
        0 <= i <= tokens.len(),
    ensures
        groups(kind, relative, reflect, tokens, i) matches Ok(found) ==> i <= found.1
            <= tokens.len(),
    decreases tokens.len() - i,
{
    if i < tokens.len() && tokens[i] is Number {
        if group_at(kind, relative, reflect, tokens, i) is Ok {
            lemma_groups_advance(kind, relative, reflects(kind, kind), tokens, i + group_width(kind));
        }
    }
}

/// The operands of a command letter end at or behind their start, and
/// inside the token sequence.
pub proof fn lemma_letter_advances(
    kind: char,
    relative: bool,
    last: char,
    tokens: Seq<Token>,
    i: int,
)
    requires
        0 <= i <= tokens.len(),
    ensures
        letter_commands(kind, relative, last, tokens, i) matches Ok(found) ==> i <= found.1
            <= tokens.len(),
{
    if kind == 'M' {
        if point_at(tokens, i) is Ok {
            lemma_groups_advance('L', relative, false, tokens, i + 2);
        }
    } else if kind != 'Z' {
        lemma_groups_advance(kind, relative, reflects(kind, last), tokens, i);
    }
}

/// What a function that reads tokens returned, as a specification value.
pub open spec fn parsed_commands(r: Result<Vec<PathCommand>, SvgParseError>) -> Parsed<
    Seq<PathCommand>,
> {
    match r {
        Ok(commands) => Ok(commands@),
        Err(e) => Err(e@),
    }
}

/// The number that `token`, which stands at index `position`, is; a
/// command letter is an error at that index.
pub fn read_number(token: &Token, position: usize) -> (r: Result<Fixed, SvgParseError>)
    ensures
        match r {
            Ok(n) => *token == Token::Number(n),
            Err(e) => *token matches Token::Command(c) && e@ == err_expected_number(
                c,
                position as nat,
            ),
        },
{
    match token {
        Token::Number(n) => Ok(*n),
        Token::Command(c) => Err(SvgParseError::expected_number(*c, position)),
    }
}

/// The coordinate pair made by tokens `at` and `at + 1`.
pub fn read_point(tokens: &Vec<Token>, at: usize) -> (r: Result<(Fixed, Fixed), SvgParseError>)
    ensures
        match r {
            Ok(p) => point_at(tokens@, at as int) == Ok::<_, SvgParseErrorView>(p),
            Err(e) => point_at(tokens@, at as int) == Err::<(Fixed, Fixed), _>(e@),
        },
        r is Ok ==> at + 2 <= tokens@.len() && tokens@[at as int] is Number && tokens@[at
            + 1] is Number,
{
    if at > tokens.len() || tokens.len() - at < 2 {
        return Err(SvgParseError::short_point(tokens.len()));
    }
    let x: Fixed = match read_number(&tokens[at], at) {
        Ok(n) => n,
        Err(e) => {
            return Err(e);
        },
    };
    let y: Fixed = match read_number(&tokens[at + 1], at + 1) {
        Ok(n) => n,
        Err(e) => {
            return Err(e);
        },
    };
    Ok((x, y))
}

/// The five numbers in front of an arc's end point.
fn read_arc_shape(tokens: &Vec<Token>, at: usize) -> (r: Result<
    (Fixed, Fixed, Fixed, Fixed, Fixed),
    SvgParseError,
>)
    requires
        at <= tokens@.len(),
    ensures
        match r {
            Ok(a) => arc_shape_at(tokens@, at as int) == Ok::<_, SvgParseErrorView>(a),
            Err(e) => arc_shape_at(tokens@, at as int) == Err::<
                (Fixed, Fixed, Fixed, Fixed, Fixed),
                _,
            >(e@),
        },
        r is Ok ==> at + 5 <= tokens@.len() && forall|k: int|
            at <= k < at + 5 ==> #[trigger] tokens@[k] is Number,
{
    if tokens.len() - at < 5 {
        return Err(SvgParseError::short_arc(tokens.len()));
    }
    let rx: Fixed = match read_number(&tokens[at], at) {
        Ok(n) => n,
        Err(e) => {
            return Err(e);
        },
    };
    let ry: Fixed = match read_number(&tokens[at + 1], at + 1) {
        Ok(n) => n,
        Err(e) => {
            return Err(e);
        },
    };
    let rotation: Fixed = match read_number(&tokens[at + 2], at + 2) {
        Ok(n) => n,
        Err(e) => {
            return Err(e);
        },
    };
    let large: Fixed = match read_number(&tokens[at + 3], at + 3) {
        Ok(n) => n,
        Err(e) => {
            return Err(e);
        },
    };
    let sweep: Fixed = match read_number(&tokens[at + 4], at + 4) {
        Ok(n) => n,
        Err(e) => {
            return Err(e);
        },
    };
    Ok((rx, ry, rotation, large, sweep))
}

/// What reading one operand group returned, as a specification value.
pub open spec fn parsed_command(r: Result<PathCommand, SvgParseError>) -> Parsed<PathCommand> {
    match r {
        Ok(command) => Ok(command),
        Err(e) => Err(e@),
    }
}

/// Reads the operand group of a command of kind `kind` that starts at
/// token `at`.
fn read_group(kind: char, relative: bool, reflect: bool, tokens: &Vec<Token>, at: usize) -> (r:
    Result<PathCommand, SvgParseError>)
    requires
        at < tokens@.len(),
        tokens@[at as int] is Number,
    ensures
        parsed_command(r) == group_at(kind, relative, reflect, tokens@, at as int),
        r is Ok ==> at + group_width(kind) <= tokens@.len(),
{
    let len: usize = tokens.len();
    if kind == 'H' {
        match read_number(&tokens[at], at) {
            Ok(x) => Ok(PathCommand::HorizontalTo { relative, x }),
            Err(e) => Err(e),
        }
    } else if kind == 'V' {
        match read_number(&tokens[at], at) {
            Ok(y) => Ok(PathCommand::VerticalTo { relative, y }),
            Err(e) => Err(e),
        }
    } else if kind == 'L' {
        match read_point(tokens, at) {
            Ok(p) => Ok(PathCommand::LineTo { relative, x: p.0, y: p.1 }),
            Err(e) => Err(e),
        }
    } else if kind == 'T' {
        match read_point(tokens, at) {
            Ok(p) => Ok(PathCommand::SmoothQuadraticTo { relative, reflect, x: p.0, y: p.1 }),
            Err(e) => Err(e),
        }
    } else if kind == 'S' || kind == 'Q' {
        let first: (Fixed, Fixed) = match read_point(tokens, at) {
            Ok(p) => p,
            Err(e) => {
                return Err(e);
            },
        };
        let p: (Fixed, Fixed) = match read_point(tokens, at + 2) {
            Ok(p) => p,
            Err(e) => {
                return Err(e);
            },
        };
        if kind == 'S' {
            Ok(
                PathCommand::SmoothCubicTo {
                    relative,
                    reflect,
                    c2x: first.0,
                    c2y: first.1,
                    x: p.0,
                    y: p.1,
                },
            )
        } else {
            Ok(PathCommand::QuadraticTo { relative, qx: first.0, qy: first.1, x: p.0, y: p.1 })
        }
    } else if kind == 'C' {
        let c1: (Fixed, Fixed) = match read_point(tokens, at) {
            Ok(p) => p,
            Err(e) => {
                return Err(e);
            },
        };
        let c2: (Fixed, Fixed) = match read_point(tokens, at + 2) {
            Ok(p) => p,
            Err(e) => {
                return Err(e);
            },
        };
        let p: (Fixed, Fixed) = match read_point(tokens, at + 4) {
            Ok(p) => p,
            Err(e) => {
                return Err(e);
            },
        };
        Ok(
            PathCommand::CubicTo {
                relative,
                c1x: c1.0,
                c1y: c1.1,
                c2x: c2.0,
                c2y: c2.1,
                x: p.0,
                y: p.1,
            },
        )
    } else {
        let a: (Fixed, Fixed, Fixed, Fixed, Fixed) = match read_arc_shape(tokens, at) {
            Ok(a) => a,
            Err(e) => {
                return Err(e);
            },
        };
        let p: (Fixed, Fixed) = match read_point(tokens, at + 5) {
            Ok(p) => p,
            Err(e) => {
                return Err(e);
            },
        };
        Ok(
            PathCommand::ArcTo {
                relative,
                rx: a.0,
                ry: a.1,
                x_rotation: a.2,
                large_arc: a.3.micros != 0,
                sweep: a.4.micros != 0,
                x: p.0,
                y: p.1,
            },
        )
    }
}

/// `done`, then the commands of the groups still to come.
pub open spec fn groups_after(done: Seq<PathCommand>, rest: Parsed<(Seq<PathCommand>, int)>)
    -> Parsed<(Seq<PathCommand>, int)> {
    match rest {
        Ok(found) => Ok((done + found.0, found.1)),
        Err(e) => Err(e),
    }
}

/// Reads operand groups from token `at` up to the first token that is not
/// a number, appends their commands to `out` and returns the index of that
/// token.
fn read_groups(
    kind: char,
    relative: bool,
    reflect: bool,
    tokens: &Vec<Token>,
    at: usize,
    out: &mut Vec<PathCommand>,
) -> (r: Result<usize, SvgParseError>)
    requires
        at <= tokens@.len(),
    ensures
        match r {
            Ok(next) => groups_after(
                old(out)@,
                groups(kind, relative, reflect, tokens@, at as int),
            ) == Ok::<_, SvgParseErrorView>((final(out)@, next as int)) && at <= next
                <= tokens@.len(),
            Err(e) => groups(kind, relative, reflect, tokens@, at as int) == Err::<
                (Seq<PathCommand>, int),
                _,
            >(e@),
        },
{
    let mut i: usize = at;
    let mut now: bool = reflect;
    let ghost total = groups_after(old(out)@, groups(kind, relative, reflect, tokens@, at as int));
    while i < tokens.len() && matches!(tokens[i], Token::Number(_))
        invariant
            at <= i <= tokens@.len(),
            total == groups_after(old(out)@, groups(kind, relative, reflect, tokens@, at as int)),
            groups_after(out@, groups(kind, relative, now, tokens@, i as int)) == total,
        decreases tokens@.len() - i,
    {
        let ghost rest = groups(
            kind,
            relative,
            reflects(kind, kind),
            tokens@,
            i + group_width(kind),
        );
        match read_group(kind, relative, now, tokens, i) {
            Err(e) => {
                return Err(e);
            },
            Ok(command) => {
                proof {
                    match rest {
                        Ok(found) => {
                            assert(out@.push(command) + found.0 =~= out@ + (seq![command]
                                + found.0));
                        },
                        Err(_) => {},
                    }
                }
                out.push(command);
                now = kind == 'S' || kind == 'T';
                i = i + if kind == 'H' || kind == 'V' {
                    1usize
                } else if kind == 'L' || kind == 'T' {
                    2usize
                } else if kind == 'S' || kind == 'Q' {
                    4usize
                } else if kind == 'C' {
                    6usize
                } else {
                    7usize
                };
            },
        }
    }
    proof {
        assert(out@ + Seq::<PathCommand>::empty() =~= out@);
    }
    Ok(i)
}

/// The upper-case form of a command letter and whether it was written in
/// lower case.
fn classify(c: char) -> (r: Option<(char, bool)>)
    ensures
        r == letter_kind(c),
{
    if c == 'M' || c == 'L' || c == 'H' || c == 'V' || c == 'C' || c == 'S' || c == 'Q' || c == 'T'
        || c == 'A' || c == 'Z' {
        Some((c, false))
    } else if c == 'm' {
        Some(('M', true))
    } else if c == 'l' {
        Some(('L', true))
    } else if c == 'h' {
        Some(('H', true))
    } else if c == 'v' {
        Some(('V', true))
    } else if c == 'c' {
        Some(('C', true))
    } else if c == 's' {
        Some(('S', true))
    } else if c == 'q' {
        Some(('Q', true))
    } else if c == 't' {
        Some(('T', true))
    } else if c == 'a' {
        Some(('A', true))
    } else if c == 'z' {
        Some(('Z', true))
    } else {
        None
    }
}

/// `done`, then the commands still to come.
pub open spec fn commands_after(done: Seq<PathCommand>, rest: Parsed<Seq<PathCommand>>) -> Parsed<
    Seq<PathCommand>,
> {
    match rest {
        Ok(commands) => Ok(done + commands),
        Err(e) => Err(e),
    }
}

/// Reads the operands of one command letter from token `at` on, appends
/// the commands they make to `out` and returns the index of the token
/// behind them.
fn read_letter(
    kind: char,
    relative: bool,
    last: char,
    tokens: &Vec<Token>,
    at: usize,
    out: &mut Vec<PathCommand>,
) -> (r: Result<usize, SvgParseError>)
    requires
        at <= tokens@.len(),
    ensures
        match r {
            Ok(next) => groups_after(
                old(out)@,
                letter_commands(kind, relative, last, tokens@, at as int),
            ) == Ok::<_, SvgParseErrorView>((final(out)@, next as int)) && at <= next
                <= tokens@.len(),
            Err(e) => letter_commands(kind, relative, last, tokens@, at as int) == Err::<
                (Seq<PathCommand>, int),
                _,
            >(e@),
        },
{
    let len: usize = tokens.len();
    if kind == 'Z' {
        out.push(PathCommand::ClosePath);
        assert(out@ =~= old(out)@ + seq![PathCommand::ClosePath]);
        Ok(at)
    } else if kind == 'M' {
        let p: (Fixed, Fixed) = match read_point(tokens, at) {
            Ok(p) => p,
            Err(e) => {
                return Err(e);
            },
        };
        let ghost first = PathCommand::MoveTo { relative, x: p.0, y: p.1 };
        out.push(PathCommand::MoveTo { relative, x: p.0, y: p.1 });
        let ghost moved = out@;
        match read_groups('L', relative, false, tokens, at + 2, out) {
            Err(e) => Err(e),
            Ok(next) => {
                proof {
                    let rest = groups('L', relative, false, tokens@, at + 2)->Ok_0;
                    assert(moved + rest.0 =~= old(out)@ + (seq![first] + rest.0));
                }
                Ok(next)
            },
        }
    } else {
        let reflect: bool = if kind == 'S' {
            last == 'C' || last == 'S'
        } else if kind == 'T' {
            last == 'Q' || last == 'T'
        } else {
            false
        };
        read_groups(kind, relative, reflect, tokens, at, out)
    }
}

/// Commands put behind `before + found` are put behind `before` with
/// `found` in front of them.
proof fn lemma_commands_join(
    before: Seq<PathCommand>,
    found: Seq<PathCommand>,
    rest: Parsed<Seq<PathCommand>>,
)
    ensures
        commands_after(before + found, rest) == commands_after(
            before,
            match rest {
                Ok(r) => Ok(found + r),
                Err(e) => Err(e),
            },
        ),
{
    match rest {
        Ok(r) => {
            assert((before + found) + r =~= before + (found + r));
        },
        Err(_) => {},
    }
}

/// Groups tokens into commands.
///
/// Fails on a number that follows no command, on a letter that names no
/// command, and where a command's operands end too early.
pub fn parse_commands(tokens: &Vec<Token>) -> (r: Result<Vec<PathCommand>, SvgParseError>)
    ensures
        parsed_commands(r) == commands_of(tokens@),
{
    let mut commands: Vec<PathCommand> = Vec::new();
    let mut last: char = ' ';
    let mut i: usize = 0;
    let ghost total = commands_of(tokens@);
    proof {
        match total {
            Ok(all) => {
                assert(Seq::<PathCommand>::empty() + all =~= all);
            },
            Err(_) => {},
        }
    }
    while i < tokens.len()
        invariant
            i <= tokens@.len(),
            total == commands_of(tokens@),
            commands_after(commands@, commands_from(tokens@, i as int, last)) == total,
        decreases tokens@.len() - i,
    {
        let c: char = match tokens[i] {
            Token::Number(_) => {
                return Err(SvgParseError::unexpected_number(i));
            },
            Token::Command(c) => c,
        };
        let (kind, relative): (char, bool) = match classify(c) {
            None => {
                return Err(SvgParseError::unknown_command(c, i));
            },
            Some(k) => k,
        };
        let ghost before = commands@;
        let ghost found = letter_commands(kind, relative, last, tokens@, i + 1);
        let next: usize = match read_letter(kind, relative, last, tokens, i + 1, &mut commands) {
            Ok(next) => next,
            Err(e) => {
                return Err(e);
            },
        };
        proof {
            lemma_commands_join(
                before,
                found->Ok_0.0,
                commands_from(tokens@, next as int, kind),
            );
        }
        last = kind;
        i = next;
    }
    proof {
        assert(commands@ + Seq::<PathCommand>::empty() =~= commands@);
    }
    Ok(commands)
}

} // verus!
