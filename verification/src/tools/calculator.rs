//! The calculator tool: reading an arithmetic expression into a program for a
//! stack machine.
//!
//! The program says what is computed and in which order; the arithmetic itself
//! is on floating-point numbers and is done by whoever runs it.

use vstd::prelude::*;
use crate::json::Json;
use crate::message::{ToolSpec, ToolSpecView};
use crate::text::{chars_of, is_space, text_of};
use crate::tool::{RatedTool, ToolRisk};

verus! {

/// What the calculator is asked.
#[derive(Debug)]
pub struct Calculator {
    /// Arithmetic expression to evaluate, e.g. "(2 + 3) * 4".
    pub expression: String,
}

impl Default for Calculator {
    /// The request with an empty expression.
    fn default() -> (r: Calculator)
        ensures
            r.expression@ == Seq::<char>::empty(),
    {
        Calculator { expression: String::new() }
    }
}

/// How the calculator is described to a model.
pub open spec fn calculator_spec(schema: crate::json::JsonView) -> ToolSpecView {
    ToolSpecView {
        name: "calculator"@,
        description: "Evaluate a simple arithmetic expression. Supports +, -, *, /, ^, parentheses, and decimal numbers."@,
        parameters_schema: schema,
    }
}

impl Calculator {
    /// The tool, with the schema of its arguments.
    pub fn tool(schema: Json) -> (r: RatedTool)
        ensures
            r.spec@ == calculator_spec(schema@),
            r.risk == ToolRisk::ReadOnly,
    {
        RatedTool {
            spec: ToolSpec {
                name: "calculator".to_owned(),
                description: "Evaluate a simple arithmetic expression. Supports +, -, *, /, ^, parentheses, and decimal numbers.".to_owned(),
                parameters_schema: schema,
            },
            risk: ToolRisk::ReadOnly,
        }
    }

    /// The program that the expression asks for.
    pub fn program(&self) -> (r: Program)
        ensures
            r@ == program_of(self.expression@),
    {
        compile(self.expression.as_str())
    }
}

/// One step of a stack machine. A number is pushed; a sign replaces the top;
/// the others take two values off, the right one first, and push one.
#[derive(Debug, PartialEq, Eq)]
pub enum Op {
    Number(String),
    Positive,
    Negative,
    Power,
    Multiply,
    Divide,
    Add,
    Subtract,
}

/// The model of a step.
pub ghost enum OpView {
    Number(Seq<char>),
    Positive,
    Negative,
    Power,
    Multiply,
    Divide,
    Add,
    Subtract,
}

impl View for Op {
    type V = OpView;

    open spec fn view(&self) -> OpView {
        match self {
            Op::Number(t) => OpView::Number(t@),
            Op::Positive => OpView::Positive,
            Op::Negative => OpView::Negative,
            Op::Power => OpView::Power,
            Op::Multiply => OpView::Multiply,
            Op::Divide => OpView::Divide,
            Op::Add => OpView::Add,
            Op::Subtract => OpView::Subtract,
        }
    }
}

/// The models of steps.
pub open spec fn op_views(s: Seq<Op>) -> Seq<OpView> {
    s.map_values(|o: Op| o@)
}

/// Why an expression cannot be read.
#[derive(Clone, Copy, Debug, PartialEq, Eq, Structural)]
pub enum ParseError {
    ExpectedNumber,
    InvalidNumber,
    MissingParenthesis,
    TrailingCharacters,
}

/// What is reported of a division whose right side is zero.
pub const DIVISION_BY_ZERO: &'static str = "division by zero";

impl ParseError {
    /// The message shown for the error.
    pub open spec fn message(self) -> Seq<char> {
        match self {
            ParseError::ExpectedNumber => "expected number"@,
            ParseError::InvalidNumber => "invalid number"@,
            ParseError::MissingParenthesis => "missing ')'"@,
            ParseError::TrailingCharacters => "trailing characters"@,
        }
    }

    /// The message shown for the error.
    pub fn to_message(self) -> (r: &'static str)
        ensures
            r@ == self.message(),
    {
        match self {
            ParseError::ExpectedNumber => "expected number",
            ParseError::InvalidNumber => "invalid number",
            ParseError::MissingParenthesis => "missing ')'",
            ParseError::TrailingCharacters => "trailing characters",
        }
    }
}

/// The steps of an expression. Where it cannot be read to its end, these are
/// the steps of what was read, and the failure comes after them.
#[derive(Debug)]
pub struct Program {
    pub ops: Vec<Op>,
    pub failure: Option<ParseError>,
}

/// The model of a program.
pub ghost struct ProgramView {
    pub ops: Seq<OpView>,
    pub failure: Option<ParseError>,
}

impl View for Program {
    type V = ProgramView;

    open spec fn view(&self) -> ProgramView {
        ProgramView { ops: op_views(self.ops@), failure: self.failure }
    }
}

/// What reading a part of an expression comes to: its steps, and the text
/// behind it or the reason why it ends there.
pub ghost struct Parsed {
    pub ops: Seq<OpView>,
    pub rest: Result<Seq<char>, ParseError>,
}

/// A text without the white space that it begins with.
pub open spec fn skipped(s: Seq<char>) -> Seq<char>
    decreases s.len(),
{
    if s.len() > 0 && is_space(s[0]) {
        skipped(s.skip(1))
    } else {
        s
    }
}

/// Whether a text begins with a character.
pub open spec fn begins(s: Seq<char>, c: char) -> bool {
    s.len() > 0 && s[0] == c
}

/// Whether a character belongs to a numeral.
pub open spec fn in_numeral(c: char) -> bool {
    '0' <= c <= '9' || c == '.'
}

/// The length of the numeral that a text begins with.
pub open spec fn numeral_len(s: Seq<char>) -> int
    decreases s.len(),
{
    if s.len() > 0 && in_numeral(s[0]) {
        1 + numeral_len(s.skip(1))
    } else {
        0
    }
}

/// The number of decimal points in a text.
pub open spec fn points(s: Seq<char>) -> int
    decreases s.len(),
{
    if s.len() == 0 {
        0
    } else {
        points(s.drop_last()) + (if s.last() == '.' {
            1int
        } else {
            0
        })
    }
}

/// A numeral: digits with at most one decimal point, and not the point alone.
pub open spec fn number(s: Seq<char>) -> Parsed {
    let t = s.take(numeral_len(s));
    if t.len() == 0 || t == seq!['.'] {
        Parsed { ops: Seq::empty(), rest: Err(ParseError::ExpectedNumber) }
    } else if points(t) > 1 {
        Parsed { ops: Seq::empty(), rest: Err(ParseError::InvalidNumber) }
    } else {
        Parsed { ops: seq![OpView::Number(t)], rest: Ok(s.skip(numeral_len(s))) }
    }
}

/// A factor: an expression in parentheses, a sign and a factor, or a numeral.
pub open spec fn factor(s: Seq<char>) -> Parsed
    decreases s.len(), 0int,
    via factor_decreases
{
    let t = skipped(s);
    if begins(t, '(') {
        let inner = expr(t.skip(1));
        match inner.rest {
            Err(e) => inner,
            Ok(r) => if begins(skipped(r), ')') {
                Parsed { ops: inner.ops, rest: Ok(skipped(r).skip(1)) }
            } else {
                Parsed { ops: inner.ops, rest: Err(ParseError::MissingParenthesis) }
            },
        }
    } else if begins(t, '+') || begins(t, '-') {
        let inner = factor(t.skip(1));
        let sign = if begins(t, '+') {
            OpView::Positive
        } else {
            OpView::Negative
        };
        match inner.rest {
            Err(e) => inner,
            Ok(r) => Parsed { ops: inner.ops.push(sign), rest: inner.rest },
        }
    } else {
        number(t)
    }
}

/// An operand with its steps, then an operator's step, then what follows.
pub open spec fn after_operand(operand: Parsed, op: OpView, tail: Parsed) -> Parsed {
    match operand.rest {
        Err(e) => operand,
        Ok(r) => Parsed { ops: operand.ops.push(op) + tail.ops, rest: tail.rest },
    }
}

/// An operand with its steps, then what follows.
pub open spec fn followed_by(operand: Parsed, tail: Parsed) -> Parsed {
    match operand.rest {
        Err(e) => operand,
        Ok(r) => Parsed { ops: operand.ops + tail.ops, rest: tail.rest },
    }
}

/// Where no operator follows: nothing, up to what comes behind white space.
pub open spec fn nothing_more(s: Seq<char>) -> Parsed {
    Parsed { ops: Seq::empty(), rest: Ok(skipped(s)) }
}

/// The text behind a part that was read. (Every part takes a character at
/// least, so that the text behind it is shorter.)
pub open spec fn behind(p: Parsed, s: Seq<char>) -> Seq<char> {
    match p.rest {
        Ok(r) => if r.len() < s.len() {
            r
        } else {
            s.skip(1)
        },
        Err(e) => s.skip(1),
    }
}

/// What follows a factor: `^` and a factor, any number of times.
pub open spec fn power_tail(s: Seq<char>) -> Parsed
    decreases s.len(), 1int,
    via power_tail_decreases
{
    let t = skipped(s);
    if begins(t, '^') {
        let right = factor(t.skip(1));
        after_operand(right, OpView::Power, power_tail(behind(right, s)))
    } else {
        nothing_more(s)
    }
}

/// Factors with `^` between them.
pub open spec fn power(s: Seq<char>) -> Parsed
    decreases s.len(), 2int,
    via power_decreases
{
    let left = factor(s);
    if s.len() == 0 {
        left
    } else {
        followed_by(left, power_tail(behind(left, s)))
    }
}

/// What follows a power: `*` or `/` and a power, any number of times.
pub open spec fn term_tail(s: Seq<char>) -> Parsed
    decreases s.len(), 3int,
    via term_tail_decreases
{
    let t = skipped(s);
    if begins(t, '*') || begins(t, '/') {
        let op = if begins(t, '*') {
            OpView::Multiply
        } else {
            OpView::Divide
        };
        let right = power(t.skip(1));
        after_operand(right, op, term_tail(behind(right, s)))
    } else {
        nothing_more(s)
    }
}

/// Powers with `*` or `/` between them.
pub open spec fn term(s: Seq<char>) -> Parsed
    decreases s.len(), 4int,
    via term_decreases
{
    let left = power(s);
    if s.len() == 0 {
        left
    } else {
        followed_by(left, term_tail(behind(left, s)))
    }
}

/// What follows a term: `+` or `-` and a term, any number of times.
pub open spec fn expr_tail(s: Seq<char>) -> Parsed
    decreases s.len(), 5int,
    via expr_tail_decreases
{
    let t = skipped(s);
    if begins(t, '+') || begins(t, '-') {
        let op = if begins(t, '+') {
            OpView::Add
        } else {
            OpView::Subtract
        };
        let right = term(t.skip(1));
        after_operand(right, op, expr_tail(behind(right, s)))
    } else {
        nothing_more(s)
    }
}

/// Terms with `+` or `-` between them.
pub open spec fn expr(s: Seq<char>) -> Parsed
    decreases s.len(), 6int,
    via expr_decreases
{
    let left = term(s);
    if s.len() == 0 {
        left
    } else {
        followed_by(left, expr_tail(behind(left, s)))
    }
}

proof fn lemma_skipped_len(s: Seq<char>)
    ensures
        skipped(s).len() <= s.len(),
        skipped(s).len() > 0 ==> !is_space(skipped(s)[0]),
        skipped(skipped(s)) == skipped(s),
    decreases s.len(),
{
    if s.len() > 0 && is_space(s[0]) {
        lemma_skipped_len(s.skip(1));
    }
}

#[via_fn]
proof fn factor_decreases(s: Seq<char>) {
    lemma_skipped_len(s);
}

#[via_fn]
proof fn power_tail_decreases(s: Seq<char>) {
    lemma_skipped_len(s);
}

#[via_fn]
proof fn power_decreases(s: Seq<char>) {
}

#[via_fn]
proof fn term_tail_decreases(s: Seq<char>) {
    lemma_skipped_len(s);
}

#[via_fn]
proof fn term_decreases(s: Seq<char>) {
}

#[via_fn]
proof fn expr_tail_decreases(s: Seq<char>) {
    lemma_skipped_len(s);
}

#[via_fn]
proof fn expr_decreases(s: Seq<char>) {
}

/// The program of an expression: its steps, and a failure where it cannot be
/// read or something follows it.
pub open spec fn program_of(s: Seq<char>) -> ProgramView {
    let p = expr(s);
    ProgramView {
        ops: p.ops,
        failure: match p.rest {
            Err(e) => Some(e),
            Ok(r) => if r.len() == 0 {
                None
            } else {
                Some(ParseError::TrailingCharacters)
            },
        },
    }
}

fn skip_whitespace(chars: &Vec<char>, pos: usize) -> (r: usize)
    requires
        pos <= chars@.len(),
    ensures
        pos <= r <= chars@.len(),
        chars@.skip(r as int) == skipped(chars@.skip(pos as int)),
{
    let mut i: usize = pos;
    while i < chars.len() && chars[i].is_whitespace()
        invariant
            pos <= i <= chars@.len(),
            skipped(chars@.skip(i as int)) == skipped(chars@.skip(pos as int)),
        decreases chars@.len() - i,
    {
        assert(chars@.skip(i as int).skip(1) =~= chars@.skip(i + 1));
        i = i + 1;
    }
    i
}

fn parse_number(chars: &Vec<char>, pos: usize, ops: &mut Vec<Op>) -> (r: Result<usize, ParseError>)
    requires
        pos <= chars@.len(),
    ensures
        ({
            let p = number(chars@.skip(pos as int));
            &&& op_views(final(ops)@) == op_views(old(ops)@) + p.ops
            &&& match r {
                Ok(q) => pos < q <= chars@.len() && p.rest == Ok::<Seq<char>, ParseError>(
                    chars@.skip(q as int),
                ),
                Err(e) => p.rest == Err::<Seq<char>, ParseError>(e),
            }
        }),
{
    let ghost s = chars@.skip(pos as int);
    let mut i: usize = pos;
    let mut dots: usize = 0;
    assert(s.take(0) =~= Seq::<char>::empty());
    assert(s.skip(0) =~= s);
    while i < chars.len() && (('0' <= chars[i] && chars[i] <= '9') || chars[i] == '.')
        invariant
            pos <= i <= chars@.len(),
            s == chars@.skip(pos as int),
            numeral_len(s) == (i - pos) + numeral_len(s.skip(i - pos)),
            dots == points(s.take(i - pos)),
            dots <= i - pos,
        decreases chars@.len() - i,
    {
        assert(s.skip(i - pos)[0] == chars@[i as int]);
        assert(s.skip(i - pos).skip(1) =~= s.skip(i - pos + 1));
        assert(s.take(i - pos + 1).drop_last() =~= s.take(i - pos));
        assert(s.take(i - pos + 1).last() == chars@[i as int]);
        if chars[i] == '.' {
            dots = dots + 1;
        }
        i = i + 1;
    }
    assert(numeral_len(s.skip(i - pos)) == 0) by {
        if i < chars@.len() {
            assert(s.skip(i - pos)[0] == chars@[i as int]);
        }
    }
    let text = text_of(chars, pos, i);
    assert(text@ =~= s.take(i - pos));
    assert(op_views(ops@) + Seq::<OpView>::empty() =~= op_views(ops@));
    if i == pos || (i == pos + 1 && chars[pos] == '.') {
        assert(i == pos + 1 ==> text@ =~= seq!['.']);
        return Err(ParseError::ExpectedNumber);
    }
    assert(text@ != seq!['.']) by {
        if text@ == seq!['.'] {
            assert(text@.len() == 1 && text@[0] == '.');
            assert(text@[0] == chars@[pos as int]);
        }
    }
    if dots > 1 {
        return Err(ParseError::InvalidNumber);
    }
    let ghost before = op_views(ops@);
    ops.push(Op::Number(text));
    assert(op_views(ops@) =~= before + seq![OpView::Number(text@)]);
    assert(s.skip(i - pos) =~= chars@.skip(i as int));
    Ok(i)
}

/// Whether reading a part from a position did what its model says.
spec fn reads(
    p: Parsed,
    chars: Seq<char>,
    pos: int,
    before: Seq<Op>,
    after: Seq<Op>,
    r: Result<usize, ParseError>,
) -> bool {
    &&& op_views(after) == op_views(before) + p.ops
    &&& match r {
        Ok(q) => pos < q <= chars.len() && p.rest == Ok::<Seq<char>, ParseError>(
            chars.skip(q as int),
        ),
        Err(e) => p.rest == Err::<Seq<char>, ParseError>(e),
    }
}

fn parse_factor(chars: &Vec<char>, pos: usize, ops: &mut Vec<Op>) -> (r: Result<usize, ParseError>)
    requires
        pos <= chars@.len(),
    ensures
        reads(factor(chars@.skip(pos as int)), chars@, pos as int, old(ops)@, final(ops)@, r),
    decreases chars@.len() - pos, 0int,
{
    let i = skip_whitespace(chars, pos);
    let ghost t = chars@.skip(i as int);
    if i < chars.len() && chars[i] == '(' {
        assert(t.skip(1) =~= chars@.skip(i + 1));
        match parse_expr(chars, i + 1, ops) {
            Err(e) => Err(e),
            Ok(q) => {
                let j = skip_whitespace(chars, q);
                if j < chars.len() && chars[j] == ')' {
                    assert(chars@.skip(j as int).skip(1) =~= chars@.skip(j + 1));
                    Ok(j + 1)
                } else {
                    Err(ParseError::MissingParenthesis)
                }
            },
        }
    } else if i < chars.len() && (chars[i] == '+' || chars[i] == '-') {
        assert(t.skip(1) =~= chars@.skip(i + 1));
        let positive = chars[i] == '+';
        let ghost start = op_views(ops@);
        match parse_factor(chars, i + 1, ops) {
            Err(e) => Err(e),
            Ok(q) => {
                let ghost before = op_views(ops@);
                if positive {
                    ops.push(Op::Positive);
                    assert(op_views(ops@) =~= before.push(OpView::Positive));
                } else {
                    ops.push(Op::Negative);
                    assert(op_views(ops@) =~= before.push(OpView::Negative));
                }
                assert(op_views(ops@) =~= start + factor(chars@.skip(pos as int)).ops);
                Ok(q)
            },
        }
    } else {
        parse_number(chars, i, ops)
    }
}

fn parse_power(chars: &Vec<char>, pos: usize, ops: &mut Vec<Op>) -> (r: Result<usize, ParseError>)
    requires
        pos <= chars@.len(),
    ensures
        reads(power(chars@.skip(pos as int)), chars@, pos as int, old(ops)@, final(ops)@, r),
    decreases chars@.len() - pos, 2int,
{
    let ghost s = chars@.skip(pos as int);
    let ghost whole = power(s);
    let ghost start = op_views(ops@);
    let mut q: usize = match parse_factor(chars, pos, ops) {
        Err(e) => {
            return Err(e);
        },
        Ok(q) => q,
    };
    assert(op_views(ops@) + power_tail(chars@.skip(q as int)).ops =~= start + whole.ops);
    loop
        invariant
            pos < q <= chars@.len(),
            whole == power(chars@.skip(pos as int)),
            start == op_views(old(ops)@),
            op_views(ops@) + power_tail(chars@.skip(q as int)).ops == start + whole.ops,
            whole.rest == power_tail(chars@.skip(q as int)).rest,
        decreases chars@.len() - q,
    {
        let ghost here = chars@.skip(q as int);
        let ghost before = op_views(ops@);
        let i = skip_whitespace(chars, q);
        if i < chars.len() && chars[i] == '^' {
            assert(skipped(here).skip(1) =~= chars@.skip(i + 1));
            match parse_factor(chars, i + 1, ops) {
                Err(e) => {
                    return Err(e);
                },
                Ok(next) => {
                    let ghost middle = op_views(ops@);
                    let ghost right = factor(chars@.skip(i + 1));
                    let ghost more = power_tail(chars@.skip(next as int)).ops;
                    assert(behind(right, here) == chars@.skip(next as int));
                    ops.push(Op::Power);
                    assert(op_views(ops@) =~= middle.push(OpView::Power));
                    assert(middle.push(OpView::Power) =~= before + right.ops.push(OpView::Power));
                    assert(op_views(ops@) + more =~= before + (right.ops.push(OpView::Power) + more));
                    q = next;
                },
            }
        } else {
            assert(op_views(ops@) + Seq::<OpView>::empty() =~= op_views(ops@));
            return Ok(i);
        }
    }
}

fn parse_term(chars: &Vec<char>, pos: usize, ops: &mut Vec<Op>) -> (r: Result<usize, ParseError>)
    requires
        pos <= chars@.len(),
    ensures
        reads(term(chars@.skip(pos as int)), chars@, pos as int, old(ops)@, final(ops)@, r),
    decreases chars@.len() - pos, 4int,
{
    let ghost s = chars@.skip(pos as int);
    let ghost whole = term(s);
    let ghost start = op_views(ops@);
    let mut q: usize = match parse_power(chars, pos, ops) {
        Err(e) => {
            return Err(e);
        },
        Ok(q) => q,
    };
    assert(op_views(ops@) + term_tail(chars@.skip(q as int)).ops =~= start + whole.ops);
    loop
        invariant
            pos < q <= chars@.len(),
            whole == term(chars@.skip(pos as int)),
            start == op_views(old(ops)@),
            op_views(ops@) + term_tail(chars@.skip(q as int)).ops == start + whole.ops,
            whole.rest == term_tail(chars@.skip(q as int)).rest,
        decreases chars@.len() - q,
    {
        let ghost here = chars@.skip(q as int);
        let ghost before = op_views(ops@);
        let i = skip_whitespace(chars, q);
        if i < chars.len() && (chars[i] == '*' || chars[i] == '/') {
            assert(skipped(here).skip(1) =~= chars@.skip(i + 1));
            let times = chars[i] == '*';
            match parse_power(chars, i + 1, ops) {
                Err(e) => {
                    return Err(e);
                },
                Ok(next) => {
                    let ghost middle = op_views(ops@);
                    let ghost right = power(chars@.skip(i + 1));
                    let ghost more = term_tail(chars@.skip(next as int)).ops;
                    let ghost op = if times {
                        OpView::Multiply
                    } else {
                        OpView::Divide
                    };
                    assert(behind(right, here) == chars@.skip(next as int));
                    if times {
                        ops.push(Op::Multiply);
                    } else {
                        ops.push(Op::Divide);
                    }
                    assert(op_views(ops@) =~= middle.push(op));
                    assert(middle.push(op) =~= before + right.ops.push(op));
                    assert(op_views(ops@) + more =~= before + (right.ops.push(op) + more));
                    q = next;
                },
            }
        } else {
            assert(op_views(ops@) + Seq::<OpView>::empty() =~= op_views(ops@));
            return Ok(i);
        }
    }
}

fn parse_expr(chars: &Vec<char>, pos: usize, ops: &mut Vec<Op>) -> (r: Result<usize, ParseError>)
    requires
        pos <= chars@.len(),
    ensures
        reads(expr(chars@.skip(pos as int)), chars@, pos as int, old(ops)@, final(ops)@, r),
    decreases chars@.len() - pos, 6int,
{
    let ghost s = chars@.skip(pos as int);
    let ghost whole = expr(s);
    let ghost start = op_views(ops@);
    let mut q: usize = match parse_term(chars, pos, ops) {
        Err(e) => {
            return Err(e);
        },
        Ok(q) => q,
    };
    assert(op_views(ops@) + expr_tail(chars@.skip(q as int)).ops =~= start + whole.ops);
    loop
        invariant
            pos < q <= chars@.len(),
            whole == expr(chars@.skip(pos as int)),
            start == op_views(old(ops)@),
            op_views(ops@) + expr_tail(chars@.skip(q as int)).ops == start + whole.ops,
            whole.rest == expr_tail(chars@.skip(q as int)).rest,
        decreases chars@.len() - q,
    {
        let ghost here = chars@.skip(q as int);
        let ghost before = op_views(ops@);
        let i = skip_whitespace(chars, q);
        if i < chars.len() && (chars[i] == '+' || chars[i] == '-') {
            assert(skipped(here).skip(1) =~= chars@.skip(i + 1));
            let plus = chars[i] == '+';
            match parse_term(chars, i + 1, ops) {
                Err(e) => {
                    return Err(e);
                },
                Ok(next) => {
                    let ghost middle = op_views(ops@);
                    let ghost right = term(chars@.skip(i + 1));
                    let ghost more = expr_tail(chars@.skip(next as int)).ops;
                    let ghost op = if plus {
                        OpView::Add
                    } else {
                        OpView::Subtract
                    };
                    assert(behind(right, here) == chars@.skip(next as int));
                    if plus {
                        ops.push(Op::Add);
                    } else {
                        ops.push(Op::Subtract);
                    }
                    assert(op_views(ops@) =~= middle.push(op));
                    assert(middle.push(op) =~= before + right.ops.push(op));
                    assert(op_views(ops@) + more =~= before + (right.ops.push(op) + more));
                    q = next;
                },
            }
        } else {
            assert(op_views(ops@) + Seq::<OpView>::empty() =~= op_views(ops@));
            return Ok(i);
        }
    }
}

/// The program of an expression.
pub fn compile(input: &str) -> (r: Program)
    ensures
        r@ == program_of(input@),
{
    let chars = chars_of(input);
    let mut ops: Vec<Op> = Vec::new();
    assert(chars@.skip(0) =~= input@);
    assert(op_views(ops@) + expr(input@).ops =~= expr(input@).ops);
    let failure = match parse_expr(&chars, 0, &mut ops) {
        Err(e) => Some(e),
        Ok(q) => if q == chars.len() {
            None
        } else {
            Some(ParseError::TrailingCharacters)
        },
    };
    Program { ops, failure }
}

} // verus!
