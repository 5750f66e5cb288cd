//! What holds of every program that the calculator reads.

use vstd::prelude::*;
use crate::text::is_space;
use crate::tools::calculator::{
    after_operand, begins, behind, expr, expr_tail, factor, followed_by, in_numeral, nothing_more,
    number, numeral_len, points, power, power_tail, program_of, skipped, term, term_tail, OpView,
    ParseError, Parsed,
};

verus! {

/// The number of values on the stack after some steps, or `None` where a step
/// would find too few.
pub open spec fn depth_after(ops: Seq<OpView>, start: nat) -> Option<nat>
    decreases ops.len(),
{
    if ops.len() == 0 {
        Some(start)
    } else {
        match depth_after(ops.drop_last(), start) {
            None => None,
            Some(n) => match ops.last() {
                OpView::Number(t) => Some((n + 1) as nat),
                OpView::Positive | OpView::Negative => if n >= 1 {
                    Some(n)
                } else {
                    None
                },
                _ => if n >= 2 {
                    Some((n - 1) as nat)
                } else {
                    None
                },
            },
        }
    }
}

proof fn lemma_depth_concat(a: Seq<OpView>, b: Seq<OpView>, start: nat)
    ensures
        depth_after(a + b, start) == (match depth_after(a, start) {
            None => None,
            Some(n) => depth_after(b, n),
        }),
    decreases b.len(),
{
    if b.len() == 0 {
        assert(a + b =~= a);
    } else {
        assert((a + b).drop_last() =~= a + b.drop_last());
        assert((a + b).last() == b.last());
        lemma_depth_concat(a, b.drop_last(), start);
    }
}

/// Whether the steps of an operand find what they need, and leave one value
/// more than there was where the operand was read to its end.
spec fn operand_depth(p: Parsed, start: nat) -> bool {
    match depth_after(p.ops, start) {
        None => false,
        Some(n) => n >= start && (p.rest is Ok ==> n == start + 1),
    }
}

/// Whether the steps of what follows an operand find what they need, and leave
/// as many values as there were where it was read to its end.
spec fn tail_depth(p: Parsed, start: nat) -> bool {
    match depth_after(p.ops, start) {
        None => false,
        Some(n) => n >= start && (p.rest is Ok ==> n == start),
    }
}

proof fn lemma_after_operand(operand: Parsed, op: OpView, tail: Parsed, start: nat)
    requires
        start >= 1,
        operand_depth(operand, start),
        operand.rest is Ok ==> tail_depth(tail, start),
        op is Power || op is Multiply || op is Divide || op is Add || op is Subtract,
    ensures
        tail_depth(after_operand(operand, op, tail), start),
{
    if operand.rest is Ok {
        let pushed = operand.ops.push(op);
        assert(pushed.drop_last() =~= operand.ops);
        lemma_depth_concat(pushed, tail.ops, start);
    }
}

proof fn lemma_followed_by(operand: Parsed, tail: Parsed, start: nat)
    requires
        operand_depth(operand, start),
        operand.rest is Ok ==> tail_depth(tail, (start + 1) as nat),
    ensures
        operand_depth(followed_by(operand, tail), start),
{
    if operand.rest is Ok {
        lemma_depth_concat(operand.ops, tail.ops, start);
    }
}

proof fn lemma_skipped_shorter(s: Seq<char>)
    ensures
        skipped(s).len() <= s.len(),
    decreases s.len(),
{
    if s.len() > 0 && is_space(s[0]) {
        lemma_skipped_shorter(s.skip(1));
    }
}

proof fn lemma_number_depth(s: Seq<char>, start: nat)
    ensures
        operand_depth(number(s), start),
{
    reveal_with_fuel(depth_after, 2);
    let t = s.take(numeral_len(s));
    let one = seq![OpView::Number(t)];
    assert(one.drop_last() =~= Seq::<OpView>::empty());
}

proof fn lemma_factor_depth(s: Seq<char>, start: nat)
    ensures
        operand_depth(factor(s), start),
    decreases s.len(), 0int,
{
    lemma_skipped_shorter(s);
    let t = skipped(s);
    if begins(t, '(') {
        lemma_expr_depth(t.skip(1), start);
    } else if begins(t, '+') || begins(t, '-') {
        let inner = factor(t.skip(1));
        lemma_factor_depth(t.skip(1), start);
        assert(inner.ops.push(OpView::Positive).drop_last() =~= inner.ops);
        assert(inner.ops.push(OpView::Negative).drop_last() =~= inner.ops);
    } else {
        lemma_number_depth(t, start);
    }
}

proof fn lemma_power_tail_depth(s: Seq<char>, start: nat)
    requires
        start >= 1,
    ensures
        tail_depth(power_tail(s), start),
    decreases s.len(), 1int,
{
    lemma_skipped_shorter(s);
    let t = skipped(s);
    if begins(t, '^') {
        let right = factor(t.skip(1));
        lemma_factor_depth(t.skip(1), start);
        lemma_power_tail_depth(behind(right, s), start);
        lemma_after_operand(right, OpView::Power, power_tail(behind(right, s)), start);
    }
}

proof fn lemma_power_depth(s: Seq<char>, start: nat)
    ensures
        operand_depth(power(s), start),
    decreases s.len(), 2int,
{
    let left = factor(s);
    lemma_factor_depth(s, start);
    if s.len() > 0 {
        lemma_power_tail_depth(behind(left, s), (start + 1) as nat);
        lemma_followed_by(left, power_tail(behind(left, s)), start);
    }
}

proof fn lemma_term_tail_depth(s: Seq<char>, start: nat)
    requires
        start >= 1,
    ensures
        tail_depth(term_tail(s), start),
    decreases s.len(), 3int,
{
    lemma_skipped_shorter(s);
    let t = skipped(s);
    if begins(t, '*') || begins(t, '/') {
        let op = if begins(t, '*') {
            OpView::Multiply
        } else {
            OpView::Divide
        };
        let right = power(t.skip(1));
        lemma_power_depth(t.skip(1), start);
        lemma_term_tail_depth(behind(right, s), start);
        lemma_after_operand(right, op, term_tail(behind(right, s)), start);
    }
}

proof fn lemma_term_depth(s: Seq<char>, start: nat)
    ensures
        operand_depth(term(s), start),
    decreases s.len(), 4int,
{
    let left = power(s);
    lemma_power_depth(s, start);
    if s.len() > 0 {
        lemma_term_tail_depth(behind(left, s), (start + 1) as nat);
        lemma_followed_by(left, term_tail(behind(left, s)), start);
    }
}

proof fn lemma_expr_tail_depth(s: Seq<char>, start: nat)
    requires
        start >= 1,
    ensures
        tail_depth(expr_tail(s), start),
    decreases s.len(), 5int,
{
    lemma_skipped_shorter(s);
    let t = skipped(s);
    if begins(t, '+') || begins(t, '-') {
        let op = if begins(t, '+') {
            OpView::Add
        } else {
            OpView::Subtract
        };
        let right = term(t.skip(1));
        lemma_term_depth(t.skip(1), start);
        lemma_expr_tail_depth(behind(right, s), start);
        lemma_after_operand(right, op, expr_tail(behind(right, s)), start);
    }
}

proof fn lemma_expr_depth(s: Seq<char>, start: nat)
    ensures
        operand_depth(expr(s), start),
    decreases s.len(), 6int,
{
    let left = term(s);
    lemma_term_depth(s, start);
    if s.len() > 0 {
        lemma_expr_tail_depth(behind(left, s), (start + 1) as nat);
        lemma_followed_by(left, expr_tail(behind(left, s)), start);
    }
}

/// No step of a program finds the stack too short, and a program without a
/// failure leaves exactly one value.
pub proof fn law_programs_leave_one_value(s: Seq<char>)
    ensures
        depth_after(program_of(s).ops, 0) is Some,
        program_of(s).failure is None ==> depth_after(program_of(s).ops, 0) == Some(1nat),
{
    lemma_expr_depth(s, 0);
}

/// A formula, as a tree.
pub ghost enum Formula {
    Number(Seq<char>),
    Signed(bool, Box<Formula>),
    Binary(OpView, Box<Formula>, Box<Formula>),
}

/// Whether a text is a numeral as a whole.
pub open spec fn is_numeral(t: Seq<char>) -> bool {
    &&& t.len() > 0
    &&& forall|i: int| 0 <= i < t.len() ==> in_numeral(#[trigger] t[i])
    &&& t != seq!['.']
    &&& points(t) <= 1
}

/// Whether a step takes two values.
pub open spec fn is_binary(op: OpView) -> bool {
    op is Power || op is Multiply || op is Divide || op is Add || op is Subtract
}

/// The sign of a binary operator.
pub open spec fn operator_char(op: OpView) -> char {
    match op {
        OpView::Power => '^',
        OpView::Multiply => '*',
        OpView::Divide => '/',
        OpView::Add => '+',
        _ => '-',
    }
}

/// Whether the numerals of a formula are numerals, and its operators binary.
pub open spec fn is_valid(f: Formula) -> bool
    decreases f,
{
    match f {
        Formula::Number(t) => is_numeral(t),
        Formula::Signed(positive, a) => is_valid(*a),
        Formula::Binary(op, a, b) => is_binary(op) && is_valid(*a) && is_valid(*b),
    }
}

/// A formula written down, with parentheses around every operation.
pub open spec fn written(f: Formula) -> Seq<char>
    decreases f,
{
    match f {
        Formula::Number(t) => t,
        Formula::Signed(positive, a) => seq![
            if positive {
                '+'
            } else {
                '-'
            },
        ] + written(*a),
        Formula::Binary(op, a, b) => seq!['('] + written(*a) + seq![operator_char(op)] + written(*b)
            + seq![')'],
    }
}

/// The steps that compute a formula: those of the operands, then the
/// operation.
pub open spec fn steps(f: Formula) -> Seq<OpView>
    decreases f,
{
    match f {
        Formula::Number(t) => seq![OpView::Number(t)],
        Formula::Signed(positive, a) => steps(*a).push(
            if positive {
                OpView::Positive
            } else {
                OpView::Negative
            },
        ),
        Formula::Binary(op, a, b) => (steps(*a) + steps(*b)).push(op),
    }
}

/// Whether a text cannot continue a numeral.
spec fn ends_numeral(s: Seq<char>) -> bool {
    s.len() > 0 ==> !in_numeral(s[0])
}

proof fn lemma_numeral_len(t: Seq<char>, tail: Seq<char>)
    requires
        forall|i: int| 0 <= i < t.len() ==> in_numeral(#[trigger] t[i]),
        ends_numeral(tail),
    ensures
        numeral_len(t + tail) == t.len(),
    decreases t.len(),
{
    if t.len() == 0 {
        assert(t + tail =~= tail);
    } else {
        assert((t + tail).skip(1) =~= t.skip(1) + tail);
        assert((t + tail)[0] == t[0]);
        assert forall|i: int| 0 <= i < t.skip(1).len() implies in_numeral(#[trigger] t.skip(
            1,
        )[i]) by {
            assert(t.skip(1)[i] == t[i + 1]);
        }
        lemma_numeral_len(t.skip(1), tail);
    }
}

/// A text that begins with no white space is not changed by skipping it.
proof fn lemma_nothing_skipped(s: Seq<char>)
    requires
        s.len() > 0 ==> !is_space(s[0]),
    ensures
        skipped(s) == s,
{
}

/// A written formula, whatever follows it, is read as a factor: its steps come
/// out, and what follows it is left.
proof fn lemma_factor_reads(f: Formula, tail: Seq<char>)
    requires
        is_valid(f),
        ends_numeral(tail),
    ensures
        written(f).len() > 0,
        factor(written(f) + tail) == (Parsed { ops: steps(f), rest: Ok(tail) }),
    decreases f,
{
    let s = written(f) + tail;
    match f {
        Formula::Number(t) => {
            lemma_numeral_len(t, tail);
            assert(s[0] == t[0]);
            assert(in_numeral(t[0]));
            lemma_nothing_skipped(s);
            assert(s.take(t.len() as int) =~= t);
            assert(s.skip(t.len() as int) =~= tail);
        },
        Formula::Signed(positive, a) => {
            lemma_factor_reads(*a, tail);
            lemma_nothing_skipped(s);
            assert(s.skip(1) =~= written(*a) + tail);
        },
        Formula::Binary(op, a, b) => {
            let close = seq![')'] + tail;
            let right = written(*b) + close;
            let middle = seq![operator_char(op)] + right;
            let inside = written(*a) + middle;
            lemma_factor_reads(*a, middle);
            lemma_factor_reads(*b, close);
            lemma_nothing_skipped(s);
            assert(s.skip(1) =~= inside);
            lemma_operation_reads(op, *a, *b, close);
            lemma_nothing_skipped(close);
            assert(close.skip(1) =~= tail);
        },
    }
}

/// Whether no operator, and nothing that is skipped, comes next.
spec fn ends_expression(s: Seq<char>) -> bool {
    s.len() > 0 ==> !is_space(s[0]) && s[0] != '^' && s[0] != '*' && s[0] != '/' && s[0] != '+'
        && s[0] != '-' && !in_numeral(s[0])
}

/// Two operands with an operator between them are read as an expression.
proof fn lemma_operation_reads(op: OpView, a: Formula, b: Formula, tail: Seq<char>)
    requires
        is_binary(op),
        ends_expression(tail),
        written(a).len() > 0,
        written(b).len() > 0,
        factor(written(a) + (seq![operator_char(op)] + (written(b) + tail))) == (Parsed {
            ops: steps(a),
            rest: Ok(seq![operator_char(op)] + (written(b) + tail)),
        }),
        factor(written(b) + tail) == (Parsed { ops: steps(b), rest: Ok(tail) }),
    ensures
        expr(written(a) + (seq![operator_char(op)] + (written(b) + tail))) == (Parsed {
            ops: (steps(a) + steps(b)).push(op),
            rest: Ok(tail),
        }),
{
    let right = written(b) + tail;
    let middle = seq![operator_char(op)] + right;
    let s = written(a) + middle;
    let none = Seq::<OpView>::empty();
    lemma_nothing_skipped(tail);
    lemma_nothing_skipped(middle);
    assert(middle.skip(1) =~= right);
    assert(steps(a) + none =~= steps(a));
    assert(steps(b) + none =~= steps(b));
    assert(steps(b).push(op) + none =~= steps(b).push(op));
    assert(steps(a) + steps(b).push(op) =~= (steps(a) + steps(b)).push(op));
    assert((steps(a) + steps(b)).push(op) + none =~= (steps(a) + steps(b)).push(op));
    assert(power_tail(tail) == nothing_more(tail));
    assert(term_tail(tail) == nothing_more(tail));
    assert(expr_tail(tail) == nothing_more(tail));
    assert(power(right) == (Parsed { ops: steps(b), rest: Ok(tail) }));
    assert(term(right) == (Parsed { ops: steps(b), rest: Ok(tail) }));
    if op is Power {
        assert(power_tail(middle) == (Parsed { ops: steps(b).push(op), rest: Ok(tail) }));
    } else {
        assert(power_tail(middle) == nothing_more(middle));
        assert(power(s) == (Parsed { ops: steps(a), rest: Ok(middle) }));
        if op is Multiply || op is Divide {
            assert(term_tail(middle) == (Parsed { ops: steps(b).push(op), rest: Ok(tail) }));
        } else {
            assert(term_tail(middle) == nothing_more(middle));
            assert(term(s) == (Parsed { ops: steps(a), rest: Ok(middle) }));
            assert(expr_tail(middle) == (Parsed { ops: steps(b).push(op), rest: Ok(tail) }));
        }
    }
}

/// Reading a written formula gives the steps of the formula: nothing is lost,
/// nothing is computed out of order, and parentheses group.
pub proof fn law_written_formulas_read_back(f: Formula)
    requires
        is_valid(f),
    ensures
        program_of(written(f)).ops == steps(f),
        program_of(written(f)).failure is None,
{
    let none = Seq::<char>::empty();
    let s = written(f);
    lemma_factor_reads(f, none);
    assert(s + none =~= s);
    assert(steps(f) + Seq::<OpView>::empty() =~= steps(f));
    assert(power_tail(none) == nothing_more(none));
    assert(term_tail(none) == nothing_more(none));
    assert(expr_tail(none) == nothing_more(none));
    assert(power(s) == (Parsed { ops: steps(f), rest: Ok(none) }));
    assert(term(s) == (Parsed { ops: steps(f), rest: Ok(none) }));
}

/// How tightly an operator binds.
pub open spec fn level(op: OpView) -> int {
    match op {
        OpView::Power => 3,
        OpView::Multiply | OpView::Divide => 2,
        _ => 1,
    }
}

/// Of two operators without parentheses, the one that binds tighter is
/// computed first, and of two that bind alike the left one.
#[verifier::rlimit(60)]
pub proof fn law_tighter_or_left_operator_first(
    op1: OpView,
    op2: OpView,
    a: Formula,
    b: Formula,
    c: Formula,
)
    requires
        is_binary(op1),
        is_binary(op2),
        is_valid(a),
        is_valid(b),
        is_valid(c),
    ensures
        ({
            let p = program_of(
                written(a) + seq![operator_char(op1)] + written(b) + seq![operator_char(op2)]
                    + written(c),
            );
            &&& p.failure is None
            &&& p.ops == if level(op2) > level(op1) {
                steps(a) + steps(b) + steps(c) + seq![op2, op1]
            } else {
                steps(a) + steps(b) + seq![op1] + steps(c) + seq![op2]
            }
        }),
{
    let none = Seq::<char>::empty();
    let no_ops = Seq::<OpView>::empty();
    let m2 = seq![operator_char(op2)] + written(c);
    let right = written(b) + m2;
    let m1 = seq![operator_char(op1)] + right;
    let s = written(a) + m1;
    assert(written(a) + seq![operator_char(op1)] + written(b) + seq![operator_char(op2)] + written(
        c,
    ) =~= s);
    lemma_factor_reads(c, none);
    assert(written(c) + none =~= written(c));
    lemma_factor_reads(b, m2);
    lemma_factor_reads(a, m1);
    lemma_nothing_skipped(m2);
    lemma_nothing_skipped(m1);
    assert(m2.skip(1) =~= written(c));
    assert(m1.skip(1) =~= right);
    let whole_c = Parsed { ops: steps(c), rest: Ok(none) };
    let c_then = Parsed { ops: steps(c).push(op2), rest: Ok(none) };
    assert(steps(c) + no_ops =~= steps(c));
    assert(steps(c).push(op2) + no_ops =~= steps(c).push(op2));
    assert(power_tail(none) == nothing_more(none));
    assert(term_tail(none) == nothing_more(none));
    assert(expr_tail(none) == nothing_more(none));
    assert(power(written(c)) == whole_c);
    assert(term(written(c)) == whole_c);
    assert(steps(b) + no_ops =~= steps(b));
    assert(steps(a) + no_ops =~= steps(a));
    if op2 is Power {
        assert(power_tail(m2) == c_then);
    } else {
        assert(power_tail(m2) == nothing_more(m2));
        assert(power(right) == (Parsed { ops: steps(b), rest: Ok(m2) }));
        if op2 is Multiply || op2 is Divide {
            assert(term_tail(m2) == c_then);
        } else {
            assert(term_tail(m2) == nothing_more(m2));
            assert(term(right) == (Parsed { ops: steps(b), rest: Ok(m2) }));
            assert(expr_tail(m2) == c_then);
        }
    }
    let b_c = Parsed { ops: steps(b) + steps(c).push(op2), rest: Ok(none) };
    let b_op1_c = Parsed { ops: steps(b).push(op1) + steps(c).push(op2), rest: Ok(none) };
    let b_op1 = Parsed { ops: steps(b).push(op1), rest: Ok(m2) };
    let b_c_op1 = Parsed { ops: (steps(b) + steps(c).push(op2)).push(op1), rest: Ok(none) };
    assert(b_c.ops + no_ops =~= b_c.ops);
    assert(b_op1.ops + no_ops =~= b_op1.ops);
    assert(b_c_op1.ops + no_ops =~= b_c_op1.ops);
    if op1 is Power {
        if op2 is Power {
            assert(power_tail(m1) == b_op1_c);
        } else {
            assert(power_tail(m1) == b_op1);
        }
    } else {
        assert(power_tail(m1) == nothing_more(m1));
        assert(power(s) == (Parsed { ops: steps(a), rest: Ok(m1) }));
        if op2 is Power {
            assert(power(right) == b_c);
        }
        if op1 is Multiply || op1 is Divide {
            if op2 is Power {
                assert(term_tail(m1) == b_c_op1);
            } else if op2 is Multiply || op2 is Divide {
                assert(term_tail(m1) == b_op1_c);
            } else {
                assert(term_tail(m1) == b_op1);
            }
        } else {
            assert(term_tail(m1) == nothing_more(m1));
            assert(term(s) == (Parsed { ops: steps(a), rest: Ok(m1) }));
            if level(op2) > level(op1) {
                assert(term(right) == b_c);
                assert(expr_tail(m1) == b_c_op1);
            } else {
                assert(expr_tail(m1) == b_op1_c);
            }
        }
    }
    assert(steps(a) + b_c_op1.ops =~= steps(a) + steps(b) + steps(c) + seq![op2, op1]);
    assert(steps(a) + b_op1_c.ops =~= steps(a) + steps(b) + seq![op1] + steps(c) + seq![op2]);
    assert((steps(a) + b_op1.ops) + steps(c).push(op2) =~= steps(a) + steps(b) + seq![op1] + steps(
        c,
    ) + seq![op2]);
    assert((steps(a) + b_c_op1.ops) + no_ops =~= steps(a) + b_c_op1.ops);
    assert((steps(a) + b_op1_c.ops) + no_ops =~= steps(a) + b_op1_c.ops);
    assert((steps(a) + b_op1.ops) + no_ops =~= steps(a) + b_op1.ops);
}

/// White space is skipped, all of it and nothing else.
pub proof fn law_only_white_space_is_skipped(s: Seq<char>)
    ensures
        ({
            let n = s.len() - skipped(s).len();
            &&& 0 <= n <= s.len()
            &&& skipped(s) == s.skip(n)
            &&& forall|i: int| 0 <= i < n ==> is_space(#[trigger] s[i])
            &&& n < s.len() ==> !is_space(s[n])
        }),
    decreases s.len(),
{
    if s.len() > 0 && is_space(s[0]) {
        let rest = s.skip(1);
        law_only_white_space_is_skipped(rest);
        let n = s.len() - skipped(s).len();
        assert(rest.skip(n - 1) =~= s.skip(n));
        assert forall|i: int| 0 <= i < n implies is_space(#[trigger] s[i]) by {
            if i > 0 {
                assert(rest[i - 1] == s[i]);
            }
        }
    } else {
        assert(s.skip(0) =~= s);
    }
}

/// A number is the longest run of digits and points at the front, as it is
/// written. It takes a digit, and no more than one point.
pub proof fn law_number_is_the_longest_numeral(t: Seq<char>, tail: Seq<char>)
    requires
        forall|i: int| 0 <= i < t.len() ==> '0' <= #[trigger] t[i] <= '9' || t[i] == '.',
        tail.len() > 0 ==> !('0' <= tail[0] <= '9') && tail[0] != '.',
    ensures
        ({
            let p = number(t + tail);
            let dots = t.filter(|c: char| c == '.').len();
            &&& p.rest == Err::<Seq<char>, ParseError>(ParseError::ExpectedNumber) <==> t.len() == 0
                || t == seq!['.']
            &&& p.rest == Err::<Seq<char>, ParseError>(ParseError::InvalidNumber) <==> dots > 1
            &&& p.rest is Ok ==> p.rest == Ok::<Seq<char>, ParseError>(tail) && p.ops == seq![
                OpView::Number(t),
            ]
            &&& p.rest is Ok <==> t.len() > 0 && t != seq!['.'] && dots <= 1
        }),
{
    let f = |c: char| c == '.';
    assert forall|i: int| 0 <= i < t.len() implies in_numeral(#[trigger] t[i]) by {}
    lemma_numeral_len(t, tail);
    lemma_points(t);
    let s = t + tail;
    assert(s.take(t.len() as int) =~= t);
    assert(s.skip(t.len() as int) =~= tail);
    t.lemma_filter_len(f);
    if t == seq!['.'] {
        assert(t.len() == 1);
    }
}

proof fn lemma_points(t: Seq<char>)
    ensures
        points(t) == t.filter(|c: char| c == '.').len(),
    decreases t.len(),
{
    reveal(Seq::filter);
    if t.len() > 0 {
        lemma_points(t.drop_last());
    }
}

proof fn lemma_gap(gap: Seq<char>, s: Seq<char>)
    requires
        forall|i: int| 0 <= i < gap.len() ==> is_space(#[trigger] gap[i]),
    ensures
        skipped(gap + s) == skipped(s),
    decreases gap.len(),
{
    if gap.len() == 0 {
        assert(gap + s =~= s);
    } else {
        let rest = gap.skip(1);
        assert forall|i: int| 0 <= i < rest.len() implies is_space(#[trigger] rest[i]) by {
            assert(rest[i] == gap[i + 1]);
        }
        lemma_gap(rest, s);
        assert((gap + s).skip(1) =~= rest + s);
        assert((gap + s)[0] == gap[0]);
    }
}

/// A formula written with white space in front of every sign, number and
/// parenthesis.
pub open spec fn spaced(f: Formula, gap: Seq<char>) -> Seq<char>
    decreases f,
{
    match f {
        Formula::Number(t) => gap + t,
        Formula::Signed(positive, a) => gap + seq![
            if positive {
                '+'
            } else {
                '-'
            },
        ] + spaced(*a, gap),
        Formula::Binary(op, a, b) => gap + seq!['('] + spaced(*a, gap) + gap + seq![
            operator_char(op),
        ] + spaced(*b, gap) + gap + seq![')'],
    }
}

proof fn lemma_factor_reads_spaced(f: Formula, gap: Seq<char>, tail: Seq<char>)
    requires
        is_valid(f),
        forall|i: int| 0 <= i < gap.len() ==> is_space(#[trigger] gap[i]),
        ends_numeral(tail),
    ensures
        spaced(f, gap).len() > 0,
        factor(spaced(f, gap) + tail) == (Parsed { ops: steps(f), rest: Ok(tail) }),
    decreases f,
{
    let s = spaced(f, gap) + tail;
    match f {
        Formula::Number(t) => {
            let bare = t + tail;
            lemma_numeral_len(t, tail);
            assert(bare[0] == t[0]);
            assert(in_numeral(t[0]));
            lemma_nothing_skipped(bare);
            assert(s =~= gap + bare);
            lemma_gap(gap, bare);
            assert(bare.take(t.len() as int) =~= t);
            assert(bare.skip(t.len() as int) =~= tail);
        },
        Formula::Signed(positive, a) => {
            let bare = seq![
                if positive {
                    '+'
                } else {
                    '-'
                },
            ] + (spaced(*a, gap) + tail);
            lemma_factor_reads_spaced(*a, gap, tail);
            lemma_nothing_skipped(bare);
            assert(s =~= gap + bare);
            lemma_gap(gap, bare);
            assert(bare.skip(1) =~= spaced(*a, gap) + tail);
        },
        Formula::Binary(op, a, b) => {
            let close = seq![')'] + tail;
            let shut = gap + close;
            let right = spaced(*b, gap) + shut;
            let middle = gap + (seq![operator_char(op)] + right);
            let inside = spaced(*a, gap) + middle;
            let bare = seq!['('] + inside;
            assert(shut[0] == (if gap.len() > 0 {
                gap[0]
            } else {
                ')'
            }));
            assert(middle[0] == (if gap.len() > 0 {
                gap[0]
            } else {
                operator_char(op)
            }));
            lemma_factor_reads_spaced(*a, gap, middle);
            lemma_factor_reads_spaced(*b, gap, shut);
            lemma_nothing_skipped(bare);
            assert(s =~= gap + bare);
            lemma_gap(gap, bare);
            assert(bare.skip(1) =~= inside);
            lemma_nothing_skipped(close);
            lemma_gap(gap, close);
            lemma_operation_reads_spaced(op, *a, *b, gap, shut);
            lemma_nothing_skipped(close);
            assert(close.skip(1) =~= tail);
        },
    }
}

proof fn lemma_operation_reads_spaced(
    op: OpView,
    a: Formula,
    b: Formula,
    gap: Seq<char>,
    tail: Seq<char>,
)
    requires
        is_binary(op),
        forall|i: int| 0 <= i < gap.len() ==> is_space(#[trigger] gap[i]),
        ends_expression(skipped(tail)),
        spaced(a, gap).len() > 0,
        spaced(b, gap).len() > 0,
        ({
            let middle = gap + (seq![operator_char(op)] + (spaced(b, gap) + tail));
            factor(spaced(a, gap) + middle) == (Parsed { ops: steps(a), rest: Ok(middle) })
        }),
        factor(spaced(b, gap) + tail) == (Parsed { ops: steps(b), rest: Ok(tail) }),
    ensures
        expr(spaced(a, gap) + (gap + (seq![operator_char(op)] + (spaced(b, gap) + tail)))) == (
        Parsed { ops: (steps(a) + steps(b)).push(op), rest: Ok(skipped(tail)) }),
{
    let right = spaced(b, gap) + tail;
    let bare = seq![operator_char(op)] + right;
    let middle = gap + bare;
    let s = spaced(a, gap) + middle;
    let end = skipped(tail);
    let none = Seq::<OpView>::empty();
    lemma_skipped_shorter(tail);
    lemma_nothing_skipped(end);
    lemma_nothing_skipped(bare);
    lemma_gap(gap, bare);
    assert(bare.skip(1) =~= right);
    assert(steps(a) + none =~= steps(a));
    assert(steps(b) + none =~= steps(b));
    assert(steps(b).push(op) + none =~= steps(b).push(op));
    assert(steps(a) + steps(b).push(op) =~= (steps(a) + steps(b)).push(op));
    assert((steps(a) + steps(b)).push(op) + none =~= (steps(a) + steps(b)).push(op));
    assert(power_tail(tail) == nothing_more(tail));
    assert(power_tail(end) == nothing_more(end));
    assert(term_tail(end) == nothing_more(end));
    assert(expr_tail(end) == nothing_more(end));
    assert(power(right) == (Parsed { ops: steps(b), rest: Ok(end) }));
    assert(term(right) == (Parsed { ops: steps(b), rest: Ok(end) }));
    if op is Power {
        assert(power_tail(middle) == (Parsed { ops: steps(b).push(op), rest: Ok(end) }));
    } else {
        assert(power_tail(middle) == nothing_more(middle));
        assert(power(s) == (Parsed { ops: steps(a), rest: Ok(bare) }));
        if op is Multiply || op is Divide {
            assert(term_tail(bare) == (Parsed { ops: steps(b).push(op), rest: Ok(end) }));
        } else {
            assert(term_tail(bare) == nothing_more(bare));
            assert(term(s) == (Parsed { ops: steps(a), rest: Ok(bare) }));
            assert(expr_tail(bare) == (Parsed { ops: steps(b).push(op), rest: Ok(end) }));
        }
    }
}

/// White space between the tokens of a formula, in front of it and behind it
/// makes no difference.
pub proof fn law_white_space_does_not_matter(f: Formula, gap: Seq<char>)
    requires
        is_valid(f),
        forall|i: int| 0 <= i < gap.len() ==> is_space(#[trigger] gap[i]),
    ensures
        program_of(spaced(f, gap) + gap).ops == steps(f),
        program_of(spaced(f, gap) + gap).failure is None,
{
    let none = Seq::<char>::empty();
    let s = spaced(f, gap) + gap;
    lemma_gap(gap, none);
    assert(gap + none =~= gap);
    assert(skipped(gap) =~= none);
    lemma_factor_reads_spaced(f, gap, gap);
    assert(steps(f) + Seq::<OpView>::empty() =~= steps(f));
    assert(power_tail(gap) == nothing_more(gap));
    assert(term_tail(none) == nothing_more(none));
    assert(expr_tail(none) == nothing_more(none));
    assert(power(s) == (Parsed { ops: steps(f), rest: Ok(none) }));
    assert(term(s) == (Parsed { ops: steps(f), rest: Ok(none) }));
}

/// What follows a formula and does not continue it is refused, and so is a
/// parenthesis that is never closed.
pub proof fn law_leftovers_are_refused(f: Formula, c: char)
    requires
        is_valid(f),
        !is_space(c),
        c != '^' && c != '*' && c != '/' && c != '+' && c != '-' && !in_numeral(c),
    ensures
        program_of(written(f).push(c)).failure == Some(ParseError::TrailingCharacters),
        program_of(seq!['('] + written(f)).failure == Some(ParseError::MissingParenthesis),
{
    let none = Seq::<char>::empty();
    let tail = seq![c];
    let s = written(f) + tail;
    assert(written(f).push(c) =~= s);
    lemma_factor_reads(f, tail);
    lemma_nothing_skipped(tail);
    assert(power_tail(tail) == nothing_more(tail));
    assert(term_tail(tail) == nothing_more(tail));
    assert(expr_tail(tail) == nothing_more(tail));
    assert(steps(f) + Seq::<OpView>::empty() =~= steps(f));
    assert(power(s) == (Parsed { ops: steps(f), rest: Ok(tail) }));
    assert(term(s) == (Parsed { ops: steps(f), rest: Ok(tail) }));
    assert(expr(s) == (Parsed { ops: steps(f), rest: Ok(tail) }));
    let open = seq!['('] + written(f);
    lemma_factor_reads(f, none);
    assert(written(f) + none =~= written(f));
    assert(open.skip(1) =~= written(f));
    lemma_nothing_skipped(open);
    assert(power_tail(none) == nothing_more(none));
    assert(term_tail(none) == nothing_more(none));
    assert(expr_tail(none) == nothing_more(none));
    assert(power(written(f)) == (Parsed { ops: steps(f), rest: Ok(none) }));
    assert(term(written(f)) == (Parsed { ops: steps(f), rest: Ok(none) }));
    assert(expr(written(f)) == (Parsed { ops: steps(f), rest: Ok(none) }));
    assert(factor(open).rest == Err::<Seq<char>, ParseError>(ParseError::MissingParenthesis));
    assert(power(open) == factor(open));
    assert(term(open) == factor(open));
    assert(expr(open) == factor(open));
}

} // verus!
