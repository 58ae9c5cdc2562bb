//! What holds of the evaluation, whatever the operands.

use crate::environment::value_of;
use crate::evaluation::answered;
use crate::evaluation::DecimalReplyView;
use crate::evaluation::DecimalTaskView;
use crate::evaluation::ErrorKind;
use crate::evaluation::exact;
use crate::evaluation::kind_of;
use crate::evaluation::Machine;
use crate::evaluation::operate;
use crate::evaluation::Outcome;
use crate::evaluation::ResolveError;
use crate::evaluation::run;
use crate::evaluation::step;
use crate::evaluation::Verdict;
use crate::integer::integer_text;
use crate::laws::conversion::lemma_infix_to_postfix;
use crate::laws::conversion::lemma_left_associative_grouping;
use crate::laws::conversion::lemma_power_grouping;
use crate::rpn_resolver::postfix_of;
use crate::token::MathFunction;
use crate::token::NumberView;
use crate::token::Operator;
use crate::token::priority_of;
use crate::token::TokenView;
use vstd::prelude::*;

verus! {

/// One of the four operators `+ - * /`.
pub open spec fn is_additive_or_multiplicative(op: Operator) -> bool {
    op == Operator::Add || op == Operator::Sub || op == Operator::Mul || op == Operator::Div
}

/// The machine that an evaluation starts in.
pub open spec fn start(env: Map<Seq<char>, NumberView>) -> Machine {
    Machine { stack: Seq::empty(), env }
}

/// The verdict on a result of integer arithmetic.
pub open spec fn verdict_on(r: Result<int, ResolveError>) -> Verdict {
    match r {
        Ok(v) => Verdict::Value(NumberView::Natural(v)),
        Err(e) => Verdict::Error(e),
    }
}

/// `op` applied to the result `left` of an earlier operation, which may have
/// failed, and to `right`.
pub open spec fn then_exact(op: Operator, left: Result<int, ResolveError>, right: int) -> Result<
    int,
    ResolveError,
> {
    match left {
        Ok(v) => exact(op, v, right),
        Err(e) => Err(e),
    }
}

/// `op` applied to `left` and to the result `right` of an earlier operation,
/// which may have failed.
pub open spec fn exact_then(op: Operator, left: int, right: Result<int, ResolveError>) -> Result<
    int,
    ResolveError,
> {
    match right {
        Ok(v) => exact(op, left, v),
        Err(e) => Err(e),
    }
}

/// An integer operand.
pub open spec fn natural(v: int) -> TokenView {
    TokenView::Operand(NumberView::Natural(v))
}

/// Integer arithmetic is exact, whatever the size of the operands: an
/// operator behind two integers evaluates to the result of `exact`, and
/// leaves the environment as it is.
pub proof fn lemma_integer_operation(
    a: int,
    b: int,
    op: Operator,
    env: Map<Seq<char>, NumberView>,
)
    requires
        op != Operator::Eql,
    ensures
        run(seq![natural(a), natural(b), TokenView::Operator(op)], 0, start(env)).verdict
            == verdict_on(exact(op, a, b)),
        run(seq![natural(a), natural(b), TokenView::Operator(op)], 0, start(env)).machine.env
            == env,
        op == Operator::Add ==> exact(op, a, b) == Ok::<int, ResolveError>(a + b),
        op == Operator::Sub ==> exact(op, a, b) == Ok::<int, ResolveError>(a - b),
        op == Operator::Mul ==> exact(op, a, b) == Ok::<int, ResolveError>(a * b),
{
    let tokens = seq![natural(a), natural(b), TokenView::Operator(op)];
    let m0 = start(env);
    let m1 = Machine { stack: seq![NumberView::Natural(a)], env };
    let m2 = Machine { stack: seq![NumberView::Natural(a), NumberView::Natural(b)], env };
    assert(m0.stack.push(NumberView::Natural(a)) =~= m1.stack);
    assert(m1.stack.push(NumberView::Natural(b)) =~= m2.stack);
    assert(step(m0, tokens[0]) == Outcome::Next(m1));
    assert(step(m1, tokens[1]) == Outcome::Next(m2));
    assert(run(tokens, 0, m0) == run(tokens, 1, m1));
    assert(run(tokens, 1, m1) == run(tokens, 2, m2));
    assert(m2.stack.take(0) =~= Seq::empty());
    match exact(op, a, b) {
        Ok(v) => {
            let m3 = Machine { stack: seq![NumberView::Natural(v)], env };
            assert(Seq::<NumberView>::empty().push(NumberView::Natural(v)) =~= m3.stack);
            assert(step(m2, tokens[2]) == Outcome::Next(m3));
            assert(run(tokens, 2, m2) == run(tokens, 3, m3));
        },
        Err(e) => {
            assert(step(m2, tokens[2]) == Outcome::Stop(e));
        },
    }
}

/// Dividing an integer by the integer zero is an arithmetic error.
pub proof fn lemma_integer_division_by_zero(a: int, env: Map<Seq<char>, NumberView>)
    ensures
        run(
            seq![natural(a), natural(0), TokenView::Operator(Operator::Div)],
            0,
            start(env),
        ).verdict == Verdict::Error(ResolveError::DivisionByZero),
        kind_of(ResolveError::DivisionByZero) == ErrorKind::Arithmetic,
{
    lemma_integer_operation(a, 0, Operator::Div, env);
}

/// A division with a decimal operand is no error, whatever the divisor: it
/// is decimal work, and its value is the answer to that work.
pub proof fn lemma_decimal_division(
    left: NumberView,
    right: NumberView,
    bits: u64,
    env: Map<Seq<char>, NumberView>,
)
    requires
        left is Decimal || right is Decimal,
    ensures
        ({
            let tokens = seq![
                TokenView::Operand(left),
                TokenView::Operand(right),
                TokenView::Operator(Operator::Div),
            ];
            let task = DecimalTaskView::Binary(Operator::Div, left, right);
            let waiting = run(tokens, 0, start(env));
            let resumed = answered(task, DecimalReplyView::Value(bits), waiting.machine);
            &&& waiting.verdict == Verdict::Pending(task)
            &&& resumed is Some
            &&& run(tokens, waiting.cursor, resumed->0).verdict == Verdict::Value(
                NumberView::Decimal(bits),
            )
        }),
{
    let tokens = seq![
        TokenView::Operand(left),
        TokenView::Operand(right),
        TokenView::Operator(Operator::Div),
    ];
    let m0 = start(env);
    let m1 = Machine { stack: seq![left], env };
    let m2 = Machine { stack: seq![left, right], env };
    assert(m0.stack.push(left) =~= m1.stack);
    assert(m1.stack.push(right) =~= m2.stack);
    assert(step(m0, tokens[0]) == Outcome::Next(m1));
    assert(step(m1, tokens[1]) == Outcome::Next(m2));
    assert(run(tokens, 0, m0) == run(tokens, 1, m1));
    assert(run(tokens, 1, m1) == run(tokens, 2, m2));
    assert(m2.stack.take(0) =~= Seq::empty());
    let waiting = run(tokens, 0, m0);
    assert(waiting.machine.stack =~= Seq::empty());
    assert(waiting.cursor == 3);
    let resumed = answered(
        DecimalTaskView::Binary(Operator::Div, left, right),
        DecimalReplyView::Value(bits),
        waiting.machine,
    );
    assert(resumed->0.stack =~= seq![NumberView::Decimal(bits)]);
}

/// A variable that the environment does not bind evaluates to the integer
/// zero.
pub proof fn lemma_unbound_variable_is_zero(m: Machine, name: Seq<char>)
    requires
        !m.env.contains_key(name),
    ensures
        step(m, TokenView::Variable(name)) == Outcome::Next(
            Machine { stack: m.stack.push(NumberView::Natural(0)), env: m.env },
        ),
        run(seq![TokenView::Variable(name)], 0, start(m.env)).verdict == Verdict::Value(
            NumberView::Natural(0),
        ),
{
    let tokens = seq![TokenView::Variable(name)];
    let m1 = Machine { stack: seq![NumberView::Natural(0)], env: m.env };
    assert(start(m.env).stack.push(NumberView::Natural(0)) =~= m1.stack);
    assert(step(start(m.env), tokens[0]) == Outcome::Next(m1));
    assert(run(tokens, 0, start(m.env)) == run(tokens, 1, m1));
}

/// An assignment has the value of its right-hand side, and binds that value
/// to the text of its left-hand value. For a left-hand integer this is done
/// at once; for a decimal, once its text has been supplied.
pub proof fn lemma_assignment(m: Machine, left: NumberView, right: NumberView, name: Seq<char>)
    ensures
        ({
            let met = Machine { stack: m.stack.push(left).push(right), env: m.env };
            match left {
                NumberView::Natural(v) => step(met, TokenView::Operator(Operator::Eql))
                    == Outcome::Next(
                    Machine {
                        stack: m.stack.push(right),
                        env: m.env.insert(integer_text(v), right),
                    },
                ),
                NumberView::Decimal(bits) => {
                    &&& step(met, TokenView::Operator(Operator::Eql)) == Outcome::Ask(
                        m,
                        DecimalTaskView::Key(bits, right),
                    )
                    &&& answered(
                        DecimalTaskView::Key(bits, right),
                        DecimalReplyView::Text(name),
                        m,
                    ) == Some(
                        Machine { stack: m.stack.push(right), env: m.env.insert(name, right) },
                    )
                },
            }
        }),
{
    let met = Machine { stack: m.stack.push(left).push(right), env: m.env };
    assert(met.stack.take(met.stack.len() - 2) =~= m.stack);
}

/// What an assignment has bound, a later variable of that name evaluates to.
pub proof fn lemma_bound_variable(m: Machine, name: Seq<char>, value: NumberView)
    ensures
        step(
            Machine { stack: m.stack, env: m.env.insert(name, value) },
            TokenView::Variable(name),
        ) == Outcome::Next(
            Machine { stack: m.stack.push(value), env: m.env.insert(name, value) },
        ),
{
}

/// The expression `name = v`, for a variable whose value is an integer,
/// has the value `v`, and binds `v` to the decimal form of that integer. It
/// binds nothing else: the variable itself keeps its value, unless its name
/// is that decimal form.
pub proof fn lemma_assignment_expression(
    name: Seq<char>,
    v: NumberView,
    env: Map<Seq<char>, NumberView>,
)
    requires
        value_of(env, name) is Natural,
    ensures
        ({
            let infix = seq![
                TokenView::Variable(name),
                TokenView::Operator(Operator::Eql),
                TokenView::Operand(v),
            ];
            let led = run(postfix_of(infix), 0, start(env));
            &&& led.verdict == Verdict::Value(v)
            &&& led.machine.env == env.insert(integer_text(value_of(env, name)->Natural_0), v)
        }),
{
    let x = TokenView::Variable(name);
    let e = TokenView::Operator(Operator::Eql);
    let o = TokenView::Operand(v);
    lemma_infix_to_postfix(x, Operator::Eql, o);
    let tokens = seq![x, o, e];
    let left = value_of(env, name);
    let m0 = start(env);
    let m1 = Machine { stack: seq![left], env };
    let m2 = Machine { stack: seq![left, v], env };
    let bound = env.insert(integer_text(left->Natural_0), v);
    let m3 = Machine { stack: seq![v], env: bound };
    assert(m0.stack.push(left) =~= m1.stack);
    assert(m1.stack.push(v) =~= m2.stack);
    assert(step(m0, tokens[0]) == Outcome::Next(m1));
    assert(step(m1, tokens[1]) == Outcome::Next(m2));
    assert(run(tokens, 0, m0) == run(tokens, 1, m1));
    assert(run(tokens, 1, m1) == run(tokens, 2, m2));
    assert(m2.stack.take(0) =~= Seq::empty());
    assert(Seq::<NumberView>::empty().push(v) =~= m3.stack);
    assert(step(m2, tokens[2]) == Outcome::Next(m3));
    assert(run(tokens, 2, m2) == run(tokens, 3, m3));
}

/// A variable that is not bound counts as the integer zero in arithmetic.
pub proof fn lemma_unbound_variable_in_arithmetic(
    name: Seq<char>,
    op: Operator,
    b: int,
    env: Map<Seq<char>, NumberView>,
)
    requires
        !env.contains_key(name),
        is_additive_or_multiplicative(op) || op == Operator::Pow,
    ensures
        run(
            postfix_of(seq![TokenView::Variable(name), TokenView::Operator(op), natural(b)]),
            0,
            start(env),
        ).verdict == verdict_on(exact(op, 0, b)),
{
    let x = TokenView::Variable(name);
    let o = TokenView::Operator(op);
    lemma_infix_to_postfix(x, op, natural(b));
    let tokens = seq![x, natural(b), o];
    let zero = NumberView::Natural(0);
    let nb = NumberView::Natural(b);
    let m0 = start(env);
    let m1 = Machine { stack: seq![zero], env };
    let m2 = Machine { stack: seq![zero, nb], env };
    assert(m0.stack.push(zero) =~= m1.stack);
    assert(m1.stack.push(nb) =~= m2.stack);
    assert(step(m0, tokens[0]) == Outcome::Next(m1));
    assert(step(m1, tokens[1]) == Outcome::Next(m2));
    assert(run(tokens, 0, m0) == run(tokens, 1, m1));
    assert(run(tokens, 1, m1) == run(tokens, 2, m2));
    assert(m2.stack.take(0) =~= Seq::empty());
    match exact(op, 0, b) {
        Ok(v) => {
            let m3 = Machine { stack: seq![NumberView::Natural(v)], env };
            assert(Seq::<NumberView>::empty().push(NumberView::Natural(v)) =~= m3.stack);
            assert(step(m2, tokens[2]) == Outcome::Next(m3));
            assert(run(tokens, 2, m2) == run(tokens, 3, m3));
        },
        Err(e) => {
            assert(step(m2, tokens[2]) == Outcome::Stop(e));
        },
    }
}

/// Two operators out of `+ -`, or two out of `* /`, between three integers
/// are evaluated from left to right.
pub proof fn lemma_left_to_right(
    a: int,
    o1: Operator,
    b: int,
    o2: Operator,
    c: int,
    env: Map<Seq<char>, NumberView>,
)
    requires
        is_additive_or_multiplicative(o1),
        is_additive_or_multiplicative(o2),
        priority_of(o1).0 == priority_of(o2).0,
    ensures
        run(
            postfix_of(
                seq![
                    natural(a),
                    TokenView::Operator(o1),
                    natural(b),
                    TokenView::Operator(o2),
                    natural(c),
                ],
            ),
            0,
            start(env),
        ).verdict == verdict_on(then_exact(o2, exact(o1, a, b), c)),
{
    lemma_left_associative_grouping(natural(a), o1, natural(b), o2, natural(c));
    let p = TokenView::Operator(o1);
    let q = TokenView::Operator(o2);
    let tokens = seq![natural(a), natural(b), p, natural(c), q];
    let na = NumberView::Natural(a);
    let nb = NumberView::Natural(b);
    let nc = NumberView::Natural(c);
    let m0 = start(env);
    let m1 = Machine { stack: seq![na], env };
    let m2 = Machine { stack: seq![na, nb], env };
    assert(m0.stack.push(na) =~= m1.stack);
    assert(m1.stack.push(nb) =~= m2.stack);
    assert(step(m0, tokens[0]) == Outcome::Next(m1));
    assert(step(m1, tokens[1]) == Outcome::Next(m2));
    assert(run(tokens, 0, m0) == run(tokens, 1, m1));
    assert(run(tokens, 1, m1) == run(tokens, 2, m2));
    assert(m2.stack.take(0) =~= Seq::empty());
    match exact(o1, a, b) {
        Ok(x) => {
            let nx = NumberView::Natural(x);
            let m3 = Machine { stack: seq![nx], env };
            let m4 = Machine { stack: seq![nx, nc], env };
            assert(Seq::<NumberView>::empty().push(nx) =~= m3.stack);
            assert(m3.stack.push(nc) =~= m4.stack);
            assert(step(m2, tokens[2]) == Outcome::Next(m3));
            assert(step(m3, tokens[3]) == Outcome::Next(m4));
            assert(run(tokens, 2, m2) == run(tokens, 3, m3));
            assert(run(tokens, 3, m3) == run(tokens, 4, m4));
            assert(m4.stack.take(0) =~= Seq::empty());
            match exact(o2, x, c) {
                Ok(y) => {
                    let m5 = Machine { stack: seq![NumberView::Natural(y)], env };
                    assert(Seq::<NumberView>::empty().push(NumberView::Natural(y)) =~= m5.stack);
                    assert(step(m4, tokens[4]) == Outcome::Next(m5));
                    assert(run(tokens, 4, m4) == run(tokens, 5, m5));
                },
                Err(e) => {
                    assert(step(m4, tokens[4]) == Outcome::Stop(e));
                },
            }
        },
        Err(e) => {
            assert(step(m2, tokens[2]) == Outcome::Stop(e));
        },
    }
}

/// Two powers between three integers are evaluated from right to left.
pub proof fn lemma_right_to_left(a: int, b: int, c: int, env: Map<Seq<char>, NumberView>)
    ensures
        run(
            postfix_of(
                seq![
                    natural(a),
                    TokenView::Operator(Operator::Pow),
                    natural(b),
                    TokenView::Operator(Operator::Pow),
                    natural(c),
                ],
            ),
            0,
            start(env),
        ).verdict == verdict_on(exact_then(Operator::Pow, a, exact(Operator::Pow, b, c))),
{
    lemma_power_grouping(natural(a), natural(b), natural(c));
    let p = TokenView::Operator(Operator::Pow);
    let tokens = seq![natural(a), natural(b), natural(c), p, p];
    let na = NumberView::Natural(a);
    let nb = NumberView::Natural(b);
    let nc = NumberView::Natural(c);
    let m0 = start(env);
    let m1 = Machine { stack: seq![na], env };
    let m2 = Machine { stack: seq![na, nb], env };
    let m3 = Machine { stack: seq![na, nb, nc], env };
    assert(m0.stack.push(na) =~= m1.stack);
    assert(m1.stack.push(nb) =~= m2.stack);
    assert(m2.stack.push(nc) =~= m3.stack);
    assert(step(m0, tokens[0]) == Outcome::Next(m1));
    assert(step(m1, tokens[1]) == Outcome::Next(m2));
    assert(step(m2, tokens[2]) == Outcome::Next(m3));
    assert(run(tokens, 0, m0) == run(tokens, 1, m1));
    assert(run(tokens, 1, m1) == run(tokens, 2, m2));
    assert(run(tokens, 2, m2) == run(tokens, 3, m3));
    assert(m3.stack.take(1) =~= seq![na]);
    match exact(Operator::Pow, b, c) {
        Ok(x) => {
            let nx = NumberView::Natural(x);
            let m4 = Machine { stack: seq![na, nx], env };
            assert(seq![na].push(nx) =~= m4.stack);
            assert(step(m3, tokens[3]) == Outcome::Next(m4));
            assert(run(tokens, 3, m3) == run(tokens, 4, m4));
            assert(m4.stack.take(0) =~= Seq::empty());
            match exact(Operator::Pow, a, x) {
                Ok(y) => {
                    let m5 = Machine { stack: seq![NumberView::Natural(y)], env };
                    assert(Seq::<NumberView>::empty().push(NumberView::Natural(y)) =~= m5.stack);
                    assert(step(m4, tokens[4]) == Outcome::Next(m5));
                    assert(run(tokens, 4, m4) == run(tokens, 5, m5));
                },
                Err(e) => {
                    assert(step(m4, tokens[4]) == Outcome::Stop(e));
                },
            }
        },
        Err(e) => {
            assert(step(m3, tokens[3]) == Outcome::Stop(e));
        },
    }
}

/// A token that an evaluation on integers alone may meet: an integer, a
/// variable whose value is an integer, an operator or a bracket.
pub open spec fn is_integer_token(t: TokenView, env: Map<Seq<char>, NumberView>) -> bool {
    match t {
        TokenView::Operand(n) => n is Natural,
        TokenView::Variable(name) => value_of(env, name) is Natural,
        TokenView::Function(_) => false,
        _ => true,
    }
}

/// Whether an evaluation of `tokens` in `m` meets integers alone.
pub open spec fn is_integer_only(tokens: Seq<TokenView>, m: Machine) -> bool {
    &&& forall|i: int| 0 <= i < tokens.len() ==> is_integer_token(#[trigger] tokens[i], m.env)
    &&& forall|i: int| 0 <= i < m.stack.len() ==> (#[trigger] m.stack[i]) is Natural
}

/// An expression of integers alone is evaluated without any decimal work:
/// its evaluation ends with an integer or with a failure.
pub proof fn lemma_integers_stay_exact(tokens: Seq<TokenView>, cursor: int, m: Machine)
    requires
        is_integer_only(tokens, m),
    ensures
        match run(tokens, cursor, m).verdict {
            Verdict::Value(v) => v is Natural,
            Verdict::Pending(_) => false,
            Verdict::Error(_) => true,
        },
    decreases tokens.len() - cursor,
{
    if 0 <= cursor < tokens.len() {
        let t = tokens[cursor];
        let n = m.stack.len() as int;
        assert(is_integer_token(t, m.env));
        if n >= 2 {
            assert(m.stack[n - 2] is Natural && m.stack[n - 1] is Natural);
        }
        match step(m, t) {
            Outcome::Next(next) => {
                assert forall|i: int| 0 <= i < next.stack.len() implies (
                #[trigger] next.stack[i]) is Natural by {
                    if i < n - 2 {
                        assert(m.stack[i] is Natural);
                    } else if i < n {
                        assert(m.stack[i] is Natural);
                    }
                }
                assert forall|i: int| 0 <= i < tokens.len() implies is_integer_token(
                    #[trigger] tokens[i],
                    next.env,
                ) by {
                    assert(is_integer_token(tokens[i], m.env));
                }
                lemma_integers_stay_exact(tokens, cursor + 1, next);
            },
            _ => {},
        }
    } else {
        if m.stack.len() == 1 {
            assert(m.stack[0] is Natural);
        }
    }
}

/// A function that has a written name: any but `Max`, `Min` and `Nil`.
pub open spec fn is_written(f: MathFunction) -> bool {
    f != MathFunction::Max && f != MathFunction::Min && f != MathFunction::Nil
}

/// Whether `t` is no function, or one with a written name.
pub open spec fn is_written_token(t: TokenView) -> bool {
    t matches TokenView::Function(f) ==> is_written(f)
}

/// Whether each function among `tokens` has a written name.
pub open spec fn functions_are_written(tokens: Seq<TokenView>) -> bool {
    forall|i: int| 0 <= i < tokens.len() ==> is_written_token(#[trigger] tokens[i])
}

/// A task that is asked of the caller for a sequence that was read from a
/// text: never one for `Max` or `Min`, which take two arguments, nor one
/// for `Nil`.
pub open spec fn is_asked_of_text(task: DecimalTaskView) -> bool {
    match task {
        DecimalTaskView::Unary(f, _) => is_written(f),
        DecimalTaskView::Pair(_, _, _) => false,
        _ => true,
    }
}

/// The evaluation of a sequence whose functions all have a written name
/// never asks for `Max`, `Min` or `Nil`: in particular `Nil` is never
/// evaluated.
pub proof fn lemma_asked_of_text(tokens: Seq<TokenView>, cursor: int, m: Machine)
    requires
        functions_are_written(tokens),
    ensures
        run(tokens, cursor, m).verdict matches Verdict::Pending(task) ==> is_asked_of_text(task),
    decreases tokens.len() - cursor,
{
    if 0 <= cursor < tokens.len() {
        let t = tokens[cursor];
        match step(m, t) {
            Outcome::Next(next) => {
                lemma_asked_of_text(tokens, cursor + 1, next);
            },
            _ => {},
        }
    }
}

/// One of the five operators of arithmetic.
pub open spec fn is_arithmetic(op: Operator) -> bool {
    is_additive_or_multiplicative(op) || op == Operator::Pow
}

/// Promotion: an operator of arithmetic on two integers gives an integer or
/// fails; with a decimal on either side it never fails, but is decimal work
/// on both operands, and gives the decimal that is supplied.
pub proof fn lemma_promotion(
    op: Operator,
    left: NumberView,
    right: NumberView,
    m: Machine,
    bits: u64,
)
    requires
        is_arithmetic(op),
    ensures
        match (left, right) {
            (NumberView::Natural(a), NumberView::Natural(b)) => match exact(op, a, b) {
                Ok(v) => operate(op, left, right, m) == Outcome::Next(
                    Machine { stack: m.stack.push(NumberView::Natural(v)), env: m.env },
                ),
                Err(e) => operate(op, left, right, m) == Outcome::Stop(e) && kind_of(e)
                    == ErrorKind::Arithmetic,
            },
            _ => {
                let task = DecimalTaskView::Binary(op, left, right);
                &&& operate(op, left, right, m) == Outcome::Ask(m, task)
                &&& answered(task, DecimalReplyView::Value(bits), m) == Some(
                    Machine { stack: m.stack.push(NumberView::Decimal(bits)), env: m.env },
                )
            },
        },
{
}

/// The operator of a binary decimal task is one of the five operators of
/// arithmetic.
pub proof fn lemma_binary_task(m: Machine, t: TokenView)
    ensures
        step(m, t) matches Outcome::Ask(_, DecimalTaskView::Binary(op, left, right))
            ==> is_arithmetic(op) && (left is Decimal || right is Decimal),
{
}

} // verus!
